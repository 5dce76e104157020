use rusttube::icon::{best_entry_index, load_icon, IconLoadError};

fn ico_bytes(sizes: &[(u32, u32)]) -> Vec<u8> {
    let mut dir = ico::IconDir::new(ico::ResourceType::Icon);
    for &(w, h) in sizes {
        let data = vec![200u8; (w * h * 4) as usize];
        let image = ico::IconImage::from_rgba_data(w, h, data);
        dir.add_entry(ico::IconDirEntry::encode(&image).unwrap());
    }
    let mut out = Vec::new();
    dir.write(&mut out).unwrap();
    out
}

#[test]
fn largest_entry_is_chosen() {
    assert_eq!(best_entry_index(&vec![]), None);
    assert_eq!(best_entry_index(&vec![(16, 16), (48, 48), (32, 32)]), Some(1));
    assert_eq!(best_entry_index(&vec![(32, 32), (16, 64), (8, 8)]), Some(1));
    assert_eq!(best_entry_index(&vec![(256, 256), (300, 300)]), Some(1));
}

#[test]
fn icon_is_loaded() {
    let bytes = ico_bytes(&[(16, 16), (32, 32), (24, 24)]);
    let icon = load_icon(&bytes).unwrap();
    assert_eq!((icon.width, icon.height), (32, 32));
    assert_eq!(icon.rgba.len(), 32 * 32 * 4);
}

#[test]
fn icon_errors() {
    assert_eq!(load_icon(b"nope").unwrap_err(), IconLoadError::Unreadable);
    let empty = ico_bytes(&[]);
    assert_eq!(load_icon(&empty).unwrap_err(), IconLoadError::NoEntries);
}

#[test]
fn icon_pixels_are_four_bytes_each() {
    let bytes = ico_bytes(&[(48, 16), (20, 20)]);
    let icon = load_icon(&bytes).unwrap();
    assert_eq!((icon.width, icon.height), (48, 16));
    assert_eq!(icon.rgba.len() as u32, 4 * icon.width * icon.height);
}

#[test]
fn oversized_bmp_entry_is_refused() {
    // An icon directory with one BMP entry whose header claims 2^27 x 1 pixels.
    let mut bytes = vec![0u8, 0, 1, 0, 1, 0];
    let header_len: u32 = 40;
    let offset: u32 = 6 + 16;
    bytes.extend_from_slice(&[0, 0, 0, 0, 1, 0, 32, 0]);
    bytes.extend_from_slice(&header_len.to_le_bytes());
    bytes.extend_from_slice(&offset.to_le_bytes());
    bytes.extend_from_slice(&header_len.to_le_bytes());
    bytes.extend_from_slice(&(1i32 << 27).to_le_bytes());
    bytes.extend_from_slice(&2i32.to_le_bytes());
    bytes.extend_from_slice(&1u16.to_le_bytes());
    bytes.extend_from_slice(&32u16.to_le_bytes());
    bytes.extend_from_slice(&[0u8; 24]);
    assert_eq!(load_icon(&bytes).unwrap_err(), IconLoadError::Undecodable);
}
