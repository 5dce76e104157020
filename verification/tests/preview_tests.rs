use rusttube::decimal::decimal_string;
use rusttube::preview::{
    choose_preview_text, decode_thumbnail, format_duration, parse_preview, preview_from_json,
};

#[test]
fn durations() {
    assert_eq!(format_duration(0), "00:00");
    assert_eq!(format_duration(65), "01:05");
    assert_eq!(format_duration(3599), "59:59");
    assert_eq!(format_duration(3600), "01:00:00");
    assert_eq!(format_duration(3661), "01:01:01");
    assert_eq!(format_duration(360000), "100:00:00");
    assert_eq!(format_duration(u64::MAX), format!("{}:{:02}:{:02}", u64::MAX / 3600, (u64::MAX % 3600) / 60, u64::MAX % 60));
}

#[test]
fn decimals() {
    assert_eq!(decimal_string(0), "0");
    assert_eq!(decimal_string(7), "7");
    assert_eq!(decimal_string(1234567890), "1234567890");
    assert_eq!(decimal_string(u64::MAX), u64::MAX.to_string());
}

#[test]
fn preview_from_full_description() {
    let text = r#"{"title":"A Song (Official Video)","track":"A Song","uploader":"Label","artist":"Singer",
        "duration":215.7,"webpage_url":"https://www.youtube.com/watch?v=x","thumbnail":"https://i.ytimg.com/x.jpg"}"#;
    let p = parse_preview(text, "https://youtu.be/x").unwrap();
    assert_eq!(p.title, "A Song");
    assert_eq!(p.uploader, "Singer");
    assert_eq!(p.duration.as_deref(), Some("03:35"));
    assert_eq!(p.webpage_url, "https://www.youtube.com/watch?v=x");
    assert_eq!(p.thumbnail_url.as_deref(), Some("https://i.ytimg.com/x.jpg"));
    assert!(p.thumbnail_rgba.is_none());
}

#[test]
fn preview_fallbacks() {
    let p = parse_preview(r#"{"title":"T","channel":"C","duration":"long","track":5}"#, "u").unwrap();
    assert_eq!(p.title, "T");
    assert_eq!(p.uploader, "C");
    assert_eq!(p.duration, None);
    assert_eq!(p.webpage_url, "u");
    assert_eq!(p.thumbnail_url, None);
    let p = parse_preview("[1, 2]", "u").unwrap();
    assert_eq!(p.title, "Unknown title");
    assert_eq!(p.uploader, "Unknown creator");
    let p = parse_preview(r#"{"uploader":"U","duration":-3}"#, "u").unwrap();
    assert_eq!(p.uploader, "U");
    assert_eq!(p.duration.as_deref(), Some("00:00"));
}

#[test]
fn preview_parse_error() {
    let e = parse_preview("ERROR: Unsupported URL", "u").unwrap_err();
    assert!(e.starts_with("Could not parse preview data: "));
    assert!(e.len() > "Could not parse preview data: ".len());
}

#[test]
fn preview_text_choice() {
    assert_eq!(choose_preview_text("{}".to_string(), "warn".to_string()), "{}");
    assert_eq!(choose_preview_text("  \n".to_string(), "ERROR: x".to_string()), "ERROR: x");
    assert_eq!(choose_preview_text("".to_string(), "".to_string()), "");
}

#[test]
fn thumbnail_decoding() {
    let mut img = image::RgbaImage::new(3, 2);
    img.put_pixel(0, 0, image::Rgba([10, 20, 30, 255]));
    let mut png = std::io::Cursor::new(Vec::new());
    img.write_to(&mut png, image::ImageFormat::Png).unwrap();
    let bytes = png.into_inner();
    let (rgba, [w, h]) = decode_thumbnail(&bytes).unwrap();
    assert_eq!((w, h), (3, 2));
    assert_eq!(rgba.len(), 3 * 2 * 4);
    assert_eq!(&rgba[0..4], &[10, 20, 30, 255]);
    let e = decode_thumbnail(b"not an image").unwrap_err();
    assert!(e.starts_with("Could not decode thumbnail: "));
}

#[test]
fn preview_from_value() {
    let mut members = serde_json::Map::new();
    members.insert("title".to_string(), serde_json::Value::String("Clip".to_string()));
    members.insert("uploader".to_string(), serde_json::Value::String("Someone".to_string()));
    members.insert("channel".to_string(), serde_json::Value::String("Chan".to_string()));
    members.insert("duration".to_string(), serde_json::Value::from(4000));
    members.insert("thumbnail".to_string(), serde_json::Value::Null);
    let v = serde_json::Value::Object(members);
    let p = preview_from_json(&v, "https://example.com/v");
    assert_eq!(p.title, "Clip");
    assert_eq!(p.uploader, "Someone");
    assert_eq!(p.duration.as_deref(), Some("01:06:40"));
    assert_eq!(p.webpage_url, "https://example.com/v");
    assert_eq!(p.thumbnail_url, None);
    let p = preview_from_json(&serde_json::Value::Null, "u");
    assert_eq!(p.title, "Unknown title");
    assert_eq!(p.uploader, "Unknown creator");
    assert_eq!(p.duration, None);
}

#[test]
fn error_messages_carry_the_error_text() {
    let text = "ERROR: [generic] Unsupported URL";
    let detail = serde_json::from_str::<serde_json::Value>(text).unwrap_err().to_string();
    assert_eq!(parse_preview(text, "u").unwrap_err(), format!("Could not parse preview data: {detail}"));
    let detail = image::load_from_memory(b"not an image").unwrap_err().to_string();
    assert_eq!(decode_thumbnail(b"not an image").unwrap_err(), format!("Could not decode thumbnail: {detail}"));
}

#[test]
fn duration_fields_recombine() {
    for t in [0u64, 59, 60, 61, 3599, 3600, 3661, 86399, 360000, 1_000_000] {
        let text = format_duration(t);
        let fields: Vec<u64> = text.split(':').map(|f| f.parse().unwrap()).collect();
        let total = fields.iter().fold(0, |acc, f| acc * 60 + f);
        assert_eq!(total, t, "{text}");
        assert_eq!(fields.len(), if t >= 3600 { 3 } else { 2 });
        for field in text.split(':').skip(if t >= 3600 { 1 } else { 0 }) {
            assert_eq!(field.len(), 2);
        }
    }
}
