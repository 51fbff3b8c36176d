use oxide_chat::avatar::{
    avatar_file_name, avatar_plan, avatar_to_show, decode_data_avatar_url, extension_from_mime,
    infer_extension_from_url, select_avatar_message, AvatarCache, AvatarError, DataUrlError,
    ImageExt,
};
use oxide_chat::client::ChatLine;
use std::hash::{Hash, Hasher};

fn line(sender: &str, avatar: Option<&str>, body: &str) -> ChatLine {
    ChatLine {
        sender_id: sender.to_string(),
        avatar_url: avatar.map(|a| a.to_string()),
        body: body.to_string(),
        created_at: 0,
    }
}

#[test]
fn mime_types_map_to_extensions() {
    assert_eq!(extension_from_mime("image/png"), Some(ImageExt::Png));
    assert_eq!(extension_from_mime("image/jpeg"), Some(ImageExt::Jpg));
    assert_eq!(extension_from_mime("image/webp"), Some(ImageExt::Webp));
    assert_eq!(extension_from_mime("image/gif"), Some(ImageExt::Gif));
    assert_eq!(extension_from_mime("image/svg+xml"), Some(ImageExt::Svg));
    assert_eq!(extension_from_mime("image/PNG"), None);
    assert_eq!(extension_from_mime("text/plain"), None);
    assert_eq!(ImageExt::Svg.as_str(), "svg");
    assert_eq!(ImageExt::Img.as_str(), "img");
}

#[test]
fn url_endings_ignore_case() {
    assert_eq!(infer_extension_from_url("https://x/a.PNG"), Some(ImageExt::Png));
    assert_eq!(infer_extension_from_url("https://x/a.jpeg"), Some(ImageExt::Jpg));
    assert_eq!(infer_extension_from_url("https://x/a.JpG"), Some(ImageExt::Jpg));
    assert_eq!(infer_extension_from_url("https://x/a.webp"), Some(ImageExt::Webp));
    assert_eq!(infer_extension_from_url("https://x/a.gif"), Some(ImageExt::Gif));
    assert_eq!(infer_extension_from_url("https://x/a.png?size=2"), None);
    assert_eq!(infer_extension_from_url("https://x/a.svg"), None);
}

#[test]
fn base64_data_urls_decode() {
    let a = decode_data_avatar_url("data:image/png;base64,aGVsbG8=").unwrap().unwrap();
    assert_eq!(a.bytes, b"hello");
    assert_eq!(a.ext, ImageExt::Png);
    let a = decode_data_avatar_url("data:;charset=x;base64,aGk=").unwrap().unwrap();
    assert_eq!(a.bytes, b"hi");
    assert_eq!(a.ext, ImageExt::Img);
}

#[test]
fn plain_data_urls_percent_decode() {
    let a = decode_data_avatar_url("data:image/svg+xml,%3Csvg%3E%20%zz").unwrap().unwrap();
    assert_eq!(a.bytes, b"<svg> %zz");
    assert_eq!(a.ext, ImageExt::Svg);
    let a = decode_data_avatar_url("data:data:image/gif,x").unwrap().unwrap();
    assert_eq!(a.ext, ImageExt::Gif);
    let a = decode_data_avatar_url("data:image/gif;base64x,abc").unwrap().unwrap();
    assert_eq!(a.bytes, b"abc");
}

#[test]
fn data_url_errors() {
    assert_eq!(decode_data_avatar_url("data:image/png").unwrap_err(), DataUrlError::MissingComma);
    assert_eq!(
        decode_data_avatar_url("data:image/png;base64,***").unwrap_err(),
        DataUrlError::InvalidBase64
    );
    assert_eq!(
        DataUrlError::MissingComma.message(),
        "invalid data URL avatar: missing comma separator"
    );
    assert_eq!(DataUrlError::InvalidBase64.message(), "invalid base64 data URL payload");
}

#[test]
fn other_urls_are_not_data_urls() {
    assert!(decode_data_avatar_url("https://x/a.png").unwrap().is_none());
    assert!(decode_data_avatar_url("DATA:image/png,x").unwrap().is_none());
}

#[test]
fn cache_file_names_hash_the_url() {
    let a = avatar_file_name("https://x/a.png", ImageExt::Png);
    let b = avatar_file_name("https://x/a.png", ImageExt::Png);
    let c = avatar_file_name("https://x/b.png", ImageExt::Png);
    assert_eq!(a, b);
    assert_ne!(a, c);
    assert_eq!(a.len(), 16 + 4);
    assert!(a.ends_with(".png"));
    assert!(a[..16].chars().all(|ch| ch.is_ascii_hexdigit() && !ch.is_ascii_uppercase()));
}

#[test]
fn avatar_plans() {
    let p = avatar_plan("data:image/webp;base64,aGk=").unwrap();
    assert_eq!(p.inline.as_deref(), Some(&b"hi"[..]));
    assert!(p.file_name.ends_with(".webp"));
    let p = avatar_plan("https://x/face.GIF").unwrap();
    assert!(p.inline.is_none());
    assert!(p.file_name.ends_with(".gif"));
    let p = avatar_plan("https://x/face").unwrap();
    assert!(p.file_name.ends_with(".img"));
    assert_eq!(avatar_plan("data:x").unwrap_err(), DataUrlError::MissingComma);
}

#[test]
fn cache_reads_back_what_was_written() {
    let mut cache = AvatarCache::new();
    assert_eq!(cache.get("u1"), None);
    cache.insert("u1".to_string(), "/tmp/1.png".to_string());
    cache.insert("u2".to_string(), "/tmp/2.png".to_string());
    assert_eq!(cache.get("u1").as_deref(), Some("/tmp/1.png"));
    cache.insert("u1".to_string(), "/tmp/3.png".to_string());
    assert_eq!(cache.get("u1").as_deref(), Some("/tmp/3.png"));
    assert_eq!(cache.get("u2").as_deref(), Some("/tmp/2.png"));
    assert_eq!(cache.get("u3"), None);
}

#[test]
fn latest_avatar_message_is_selected() {
    let lines = vec![
        line("alice", Some("a1"), "x"),
        line("bob", Some("b1"), "y"),
        line("alice", Some("a2"), "z"),
        line("bob", None, "w"),
    ];
    let m = select_avatar_message(&lines, None).unwrap();
    assert_eq!(m.avatar_url.as_deref(), Some("a2"));
    let m = select_avatar_message(&lines, Some("bob")).unwrap();
    assert_eq!(m.avatar_url.as_deref(), Some("b1"));
    assert!(select_avatar_message(&lines, Some("carol")).is_none());
    assert!(select_avatar_message(&[], None).is_none());
}

#[test]
fn avatar_to_show_reports_missing_avatars() {
    let lines = vec![line("alice", None, "x")];
    assert_eq!(avatar_to_show(&lines, None), Err(AvatarError::NoMatchingMessage));
    assert_eq!(
        AvatarError::NoMatchingMessage.message(),
        "no matching message with avatar_url found"
    );
    let lines = vec![line("alice", Some("a1"), "x")];
    assert_eq!(avatar_to_show(&lines, Some("alice")).unwrap(), "a1");
}

#[test]
fn url_hash_matches_str_hash() {
    for url in ["", "https://x/a.png", "data:image/png;base64,aGk="] {
        let mut h = std::collections::hash_map::DefaultHasher::new();
        url.hash(&mut h);
        assert_eq!(oxide_chat::avatar::hash_url(url), h.finish());
        assert_eq!(
            avatar_file_name(url, ImageExt::Png),
            format!("{:016x}.png", h.finish())
        );
    }
}
