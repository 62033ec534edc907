use mangled::MangledBox;

fn ensure_send<T: Send>(_v: &T) {}
fn ensure_sync<T: Sync>(_v: &T) {}

#[test]
fn nouninit_zst() {
    let mut empty_box = MangledBox::<0>::new().unwrap();
    ensure_send(&empty_box);
    ensure_sync(&empty_box);

    empty_box.with_unmangled(|_| {});
}

#[test]
fn data_u8_preserved() {
    let mut box_ = MangledBox::<1>::new().unwrap();
    box_.with_unmangled(|p| {
        *p = 42u8.to_ne_bytes();
    });
    box_.with_unmangled(|p| {
        assert_eq!(u8::from_ne_bytes(*p), 42);
    });
    box_.rekey().unwrap();
    box_.with_unmangled(|p| {
        assert_eq!(u8::from_ne_bytes(*p), 42);
    });
    box_.with_unmangled(|p| {
        assert_eq!(u8::from_ne_bytes(*p), 42);
    });
}

#[test]
fn data_u64_preserved() {
    let mut box_ = MangledBox::<8>::new().unwrap();
    let pattern: u64 = 0x123456789abcdef;

    box_.with_unmangled(|p| {
        *p = pattern.to_ne_bytes();
    });
    box_.with_unmangled(|p| {
        assert_eq!(u64::from_ne_bytes(*p), pattern);
    });
}

#[test]
fn plain_cell_from_key_hides_the_key() {
    let key = [9u8, 8, 7];
    let mut cell = MangledBox::from_key(key);
    assert_eq!(cell.with_unmangled(|image| *image), key);
}

#[test]
fn plain_cell_rekey_with_keeps_the_image() {
    let mut cell = MangledBox::from_key([0xC3u8; 4]);
    cell.with_unmangled(|image| *image = [0xDE, 0xAD, 0xBE, 0xEF]);
    cell.rekey_with(&[0x01, 0x02, 0x04, 0x08]);
    assert_eq!(cell.with_unmangled(|image| *image), [0xDE, 0xAD, 0xBE, 0xEF]);
    cell.rekey_with(&[0xFF; 4]);
    cell.rekey_with(&[0x00; 4]);
    assert_eq!(cell.with_unmangled(|image| *image), [0xDE, 0xAD, 0xBE, 0xEF]);
}

#[test]
fn plain_cell_rekey_many_times_between_reads() {
    let mut cell = MangledBox::<16>::new().unwrap();
    let value: [u8; 16] = std::array::from_fn(|i| 0xF0 | i as u8);
    cell.with_unmangled(|image| *image = value);
    for _ in 0..40 {
        cell.rekey().unwrap();
        assert_eq!(cell.with_unmangled(|image| *image), value);
    }
}

#[test]
fn plain_cells_get_random_keys() {
    let mut first = MangledBox::<32>::new().unwrap();
    let mut second = MangledBox::<32>::new().unwrap();
    // A new cell lies over zeroed bytes, so its image is its key.
    let first_key = first.with_unmangled(|image| *image);
    let second_key = second.with_unmangled(|image| *image);
    assert_ne!(first_key, [0u8; 32]);
    assert_ne!(first_key, second_key);
}

#[test]
fn plain_cell_of_no_bytes_is_always_made_and_rekeyed() {
    let made = MangledBox::<0>::new();
    assert!(made.is_ok());
    let mut cell = made.unwrap();
    assert!(cell.rekey().is_ok());
    assert_eq!(cell.with_unmangled(|image| *image), [0u8; 0]);
}
