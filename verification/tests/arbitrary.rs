use mangled::MangledBoxArbitrary;

fn ensure_send<T: Send>(_v: &T) {}
fn ensure_sync<T: Sync>(_v: &T) {}

#[test]
fn arbitrary_zst() {
    let mut empty_box = MangledBoxArbitrary::<0>::new().unwrap();
    ensure_send(&empty_box);
    ensure_sync(&empty_box);

    empty_box.with_unmangled(|_| {});
}

/// Image of a short text: its length, then up to 15 bytes of UTF-8.
fn write_text(place: &mut [u8; 16], text: &str) {
    assert!(text.len() <= 15);
    *place = [0u8; 16];
    place[0] = text.len() as u8;
    place[1..1 + text.len()].copy_from_slice(text.as_bytes());
}

fn read_text(place: &[u8; 16]) -> String {
    let len = place[0] as usize;
    String::from_utf8(place[1..1 + len].to_vec()).unwrap()
}

fn push_text(place: &mut [u8; 16], more: &str) {
    let mut text = read_text(place);
    text.push_str(more);
    write_text(place, &text);
}

#[test]
fn real_structures_string() {
    let mut box_ = MangledBoxArbitrary::<16>::new().unwrap();
    box_.with_unmangled(|p| {
        write_text(p, &"hello".to_owned());
    });
    box_.with_unmangled(|p| {
        assert_eq!(read_text(p), "hello");
        push_text(p, " Rust!");
    });
    box_.rekey().unwrap();
    box_.with_unmangled(|p| {
        let mut s = String::with_capacity(13);
        s.push_str(&format!("{:?}", read_text(p)));
        assert_eq!(s, "\"hello Rust!\"");
    });
    box_.drop_in_place();
}

#[test]
fn fresh_cell_hides_its_key_over_zeroed_bytes() {
    let key = [0x11u8, 0x22, 0x33, 0x44];
    let mut cell = MangledBoxArbitrary::from_key(key);
    assert_eq!(cell.with_mangled(|masked| *masked), [0u8; 4]);
    assert_eq!(cell.with_unmangled(|image| *image), key);
}

#[test]
fn stored_bytes_are_image_xor_key() {
    let mut cell = MangledBoxArbitrary::from_key([0xF0u8, 0x0F, 0xAA, 0x55]);
    cell.with_unmangled(|image| *image = [0x12, 0x34, 0x56, 0x78]);
    assert_eq!(cell.with_mangled(|masked| *masked), [0xE2, 0x3B, 0xFC, 0x2D]);
    assert_eq!(cell.with_unmangled(|image| *image), [0x12, 0x34, 0x56, 0x78]);
}

#[test]
fn rekey_with_changes_stored_bytes_and_key_but_not_the_image() {
    let mut cell = MangledBoxArbitrary::from_key([0x01u8, 0x02, 0x03]);
    cell.with_unmangled(|image| *image = [0x10, 0x20, 0x30]);
    assert_eq!(cell.with_mangled(|masked| *masked), [0x11, 0x22, 0x33]);

    cell.rekey_with(&[0xFF, 0x0F, 0xF0]);
    assert_eq!(cell.with_mangled(|masked| *masked), [0xEE, 0x2D, 0xC3]);
    assert_eq!(cell.with_unmangled(|image| *image), [0x10, 0x20, 0x30]);

    // The key is now 0x01^0xFF, 0x02^0x0F, 0x03^0xF0: zeroed stored bytes show it.
    cell.with_mangled(|masked| *masked = [0, 0, 0]);
    assert_eq!(cell.with_unmangled(|image| *image), [0xFE, 0x0D, 0xF3]);
}

#[test]
fn rekey_many_times_between_reads() {
    let mut cell = MangledBoxArbitrary::<32>::new().unwrap();
    let value: [u8; 32] = std::array::from_fn(|i| (i as u8).wrapping_mul(7));
    cell.with_unmangled(|image| *image = value);
    for round in 0..50 {
        cell.rekey().unwrap();
        if round % 3 == 0 {
            cell.rekey().unwrap();
        }
        assert_eq!(cell.with_unmangled(|image| *image), value);
    }
}

#[test]
fn rekey_draws_a_new_key() {
    let mut cell = MangledBoxArbitrary::<32>::new().unwrap();
    cell.with_unmangled(|image| *image = [0u8; 32]);
    // The image is all zero, so the stored bytes are the key.
    let before = cell.with_mangled(|masked| *masked);
    cell.rekey().unwrap();
    let after = cell.with_mangled(|masked| *masked);
    assert_ne!(before, after);
    assert_eq!(cell.with_unmangled(|image| *image), [0u8; 32]);
}

#[test]
fn new_cells_get_random_keys() {
    let mut first = MangledBoxArbitrary::<32>::new().unwrap();
    let mut second = MangledBoxArbitrary::<32>::new().unwrap();
    assert_eq!(first.with_mangled(|masked| *masked), [0u8; 32]);
    assert_eq!(second.with_mangled(|masked| *masked), [0u8; 32]);
    // Over zeroed bytes the image is the key.
    let first_key = first.with_unmangled(|image| *image);
    let second_key = second.with_unmangled(|image| *image);
    assert_ne!(first_key, [0u8; 32]);
    assert_ne!(first_key, second_key);
}

#[test]
fn with_mangled_writes_show_through_the_key() {
    let mut cell = MangledBoxArbitrary::from_key([0x0Fu8; 2]);
    cell.with_unmangled(|image| *image = [0xA0, 0xB0]);
    cell.with_mangled(|masked| masked[0] ^= 0x80);
    assert_eq!(cell.with_unmangled(|image| *image), [0x20, 0xB0]);
}

#[test]
fn with_unmangled_returns_what_the_closure_returns() {
    let mut cell = MangledBoxArbitrary::from_key([1u8, 2, 3, 4]);
    let sum = cell.with_unmangled(|image| image.iter().map(|b| *b as u32).sum::<u32>());
    assert_eq!(sum, 10);
}

#[test]
fn drop_in_place_leaves_the_cell_as_it_was() {
    let mut cell = MangledBoxArbitrary::from_key([0x5Au8; 8]);
    cell.with_unmangled(|image| *image = [1, 2, 3, 4, 5, 6, 7, 8]);
    let stored = cell.with_mangled(|masked| *masked);
    cell.drop_in_place();
    assert_eq!(cell.with_mangled(|masked| *masked), stored);
    assert_eq!(cell.with_unmangled(|image| *image), [1, 2, 3, 4, 5, 6, 7, 8]);
}

#[test]
fn large_cell_keeps_its_image() {
    let mut cell = MangledBoxArbitrary::<16384>::new().unwrap();
    cell.with_unmangled(|image| {
        for (i, byte) in image.iter_mut().enumerate() {
            *byte = (i % 251) as u8;
        }
    });
    cell.rekey().unwrap();
    cell.with_unmangled(|image| {
        for (i, byte) in image.iter().enumerate() {
            assert_eq!(*byte, (i % 251) as u8);
        }
    });
}

#[test]
fn cell_of_no_bytes_is_always_made_and_rekeyed() {
    let made = MangledBoxArbitrary::<0>::new();
    assert!(made.is_ok());
    let mut cell = made.unwrap();
    assert!(cell.rekey().is_ok());
    assert_eq!(cell.with_unmangled(|image| *image), [0u8; 0]);
}
