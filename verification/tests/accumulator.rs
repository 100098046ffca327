use can_fw_update::firmware_update::{FirmwareUpdate, PutPartError};

fn gen_array<const SIZE: usize>() -> [u8; SIZE] {
    let mut arr = [0_u8; SIZE];
    arr.iter_mut().for_each(|v| *v = rand::random());
    arr
}

fn test_mod<const PAGE_SIZE: usize, const PART_SIZE: usize, const SMALL_SIZE: usize>(
    test_data: &[u8],
) {
    let mut obj = FirmwareUpdate::<PAGE_SIZE, PART_SIZE, SMALL_SIZE>::new().unwrap();

    // put 5
    {
        let mut r = [0_u8; PART_SIZE];
        for v in &mut r {
            *v = 10;
        }

        assert_eq!(obj.put_part(r, 0), Ok(()));
        assert_eq!(obj.len(), 5);
        assert_eq!(*obj.buffer(), r);
    }

    obj.reset();
    assert_eq!(
        (obj.len(), obj.buffer().len(), obj.loaded_parts_count()),
        (0, 0, 0)
    );

    let mut part_number = 0usize;
    let mut estimated_page = 0usize;
    for part in test_data.chunks(PART_SIZE).enumerate() {
        let p = <&[u8; PART_SIZE]>::try_from(part.1).unwrap();
        assert_eq!(
            obj.put_part(*p, part_number),
            Ok(()),
            "chunk {}, part {:?}, len {}",
            part.0,
            p,
            obj.len()
        );
        part_number += 1;

        if obj.len() >= PAGE_SIZE {
            let len = obj.len();
            let page = obj.get_page().unwrap();
            assert_eq!(page.0.len(), PAGE_SIZE);
            assert_eq!(page.1, estimated_page);
            assert_eq!(obj.remove_page(), true);
            assert_eq!(obj.len(), len - PAGE_SIZE);
            estimated_page += 1;
        }
    }

    obj.reset();
    assert_eq!(
        (obj.len(), obj.buffer().len(), obj.loaded_parts_count()),
        (0, 0, 0)
    );
}

#[test]
fn firmware_update_test() {
    test_mod::<1024, 5, { 1024 + 5 }>(&gen_array::<5>());
    test_mod::<1024, 5, { 1024 + 5 }>(&gen_array::<50>());
    test_mod::<1024, 5, { 1024 + 5 }>(&gen_array::<500>());
    test_mod::<1024, 5, { 1024 + 5 }>(&gen_array::<5000>());
    test_mod::<1024, 5, { 1024 + 5 }>(&gen_array::<50000>());
    test_mod::<1024, 5, { 1024 + 5 }>(&gen_array::<500000>());
}

#[test]
fn test2() {
    let test_data = gen_array::<5056>();
    let mut obj = FirmwareUpdate::<16, 5, { 16 + 5 }>::new().unwrap();

    obj.put_part(*<&[u8; 5]>::try_from(&test_data[..5]).unwrap(), 0)
        .unwrap();
    assert_eq!(obj.get_page(), None);
    obj.put_part(*<&[u8; 5]>::try_from(&test_data[5..10]).unwrap(), 1)
        .unwrap();
    assert_eq!(obj.get_page(), None);
    obj.put_part(*<&[u8; 5]>::try_from(&test_data[10..15]).unwrap(), 2)
        .unwrap();
    assert_eq!(obj.get_page(), None);
    obj.put_part(*<&[u8; 5]>::try_from(&test_data[15..20]).unwrap(), 3)
        .unwrap();
    // not enough space
    assert_eq!(
        obj.put_part(*<&[u8; 5]>::try_from(&test_data[20..25]).unwrap(), 4),
        Err(PutPartError::NotEnoughSpace)
    );

    assert_eq!(obj.get_page(), Some((test_data[..16].to_vec(), 0)));
    obj.remove_page();
    assert_eq!(obj.len(), 4);

    assert_eq!(
        obj.put_part(*<&[u8; 5]>::try_from(&test_data[20..25]).unwrap(), 4),
        Ok(())
    );
    assert_eq!(
        obj.put_part(*<&[u8; 5]>::try_from(&test_data[25..30]).unwrap(), 5),
        Ok(())
    );

    assert_eq!(
        obj.put_part(*<&[u8; 5]>::try_from(&test_data[30..35]).unwrap(), 3),
        Err(PutPartError::LessOfMinPart(4))
    );
    assert_eq!(
        obj.put_part(*<&[u8; 5]>::try_from(&test_data[30..35]).unwrap(), 7),
        Err(PutPartError::MoreOfMaxPart(6))
    );

    // put again
    assert_eq!(
        obj.put_part(*<&[u8; 5]>::try_from(&test_data[20..25]).unwrap(), 4),
        Ok(())
    );
    assert_eq!(
        obj.put_part(*<&[u8; 5]>::try_from(&test_data[25..30]).unwrap(), 5),
        Ok(())
    );
    assert_eq!(
        obj.put_part(*<&[u8; 5]>::try_from(&test_data[30..35]).unwrap(), 6),
        Ok(())
    );

    assert_eq!(obj.get_page(), Some((test_data[16..32].to_vec(), 1)));
    obj.remove_page();
    assert_eq!(obj.len(), 3);
}

#[test]
fn change_pos_resets_on_zero() {
    let mut obj = FirmwareUpdate::<16, 5, { 16 + 5 }>::new().unwrap();
    obj.put_part([b'A', b'B', b'C', b'D', b'E'], 0).unwrap();
    obj.put_part([b'F', b'G', b'H', b'I', b'J'], 1).unwrap();
    assert_eq!(obj.len(), 10);

    obj.put_part([b'X', b'X', b'X', b'X', b'X'], 0).unwrap();
    assert_eq!(obj.loaded_parts_count(), 1);
    assert_eq!(obj.buffer(), vec![b'X', b'X', b'X', b'X', b'X']);
}

#[test]
fn rewind_overwrites_tail() {
    let mut obj = FirmwareUpdate::<16, 5, { 16 + 5 }>::new().unwrap();
    obj.put_part([1, 1, 1, 1, 1], 0).unwrap();
    obj.put_part([2, 2, 2, 2, 2], 1).unwrap();
    obj.put_part([9, 9, 9, 9, 9], 1).unwrap();
    assert_eq!(obj.loaded_parts_count(), 2);
    assert_eq!(obj.buffer(), vec![1, 1, 1, 1, 1, 9, 9, 9, 9, 9]);
}
