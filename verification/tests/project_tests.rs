use entrycore::json::Json;
use entrycore::project::{build, ext_of, hash_filename, hash_id, is_image, is_sound, plan_sprite, png_dim, stem_of, ZipBuilder};

#[test]
fn zip_builder_writes_an_archive() {
    let mut z = ZipBuilder::new();
    assert!(z.add_file("a.txt", b"hello").is_ok());
    let bytes = z.finish().unwrap();
    assert_eq!(&bytes[0..2], b"PK");
    assert!(bytes.windows(5).any(|w| w == b"a.txt"));
}

#[test]
fn build_writes_a_gzip_ent_that_reads_back() {
    let bytes = build(&Json::Object(vec![("name".to_string(), Json::Str("p".to_string()))]), &vec![]).unwrap();
    assert_eq!(bytes[0], 0x1f);
    assert_eq!(bytes[1], 0x8b);
    let files = entrycore::project::ent_entries(&bytes).unwrap();
    assert_eq!(files.len(), 1);
    assert_eq!(files[0].0, "project.json");
    assert_eq!(files[0].1, b"{\"name\":\"p\"}".to_vec());
    let doc = entrycore::extract::read_project(&bytes).unwrap();
    assert_eq!(entrycore::json::to_json_text(&doc), "{\"name\":\"p\"}");
    assert!(entrycore::project::ent_entries(b"not an archive").is_err());
}

#[test]
fn extract_gives_one_source_per_named_object() {
    let sources = vec![("foo".to_string(), "fn when_start() { let x = 1; }\n".to_string())];
    let (project, _) = entrycore::compile::compile_text(&sources, &Json::Null).unwrap();
    let bytes = build(&project, &vec![]).unwrap();
    let out = entrycore::extract::extract_sources(&bytes).unwrap();
    assert_eq!(out.len(), 1);
    assert_eq!(out[0].0, "foo");
    assert!(out[0].1.contains("fn when_start()"));
}

#[test]
fn png_header_gives_size() {
    let mut d = vec![0x89u8, b'P', b'N', b'G', 0x0d, 0x0a, 0x1a, 0x0a];
    d.extend_from_slice(&[0, 0, 0, 13, b'I', b'H', b'D', b'R']);
    d.extend_from_slice(&[0, 0, 1, 0, 0, 0, 0, 200]);
    assert_eq!(png_dim(&d), Some((256, 200)));
    assert_eq!(png_dim(&d[..23]), None);
    let mut e = d.clone();
    e[1] = b'Q';
    assert_eq!(png_dim(&e), None);
}

#[test]
fn file_name_parts() {
    assert_eq!(ext_of("Foo.PNG"), "png");
    assert_eq!(stem_of("Foo.PNG"), "Foo");
    assert_eq!(ext_of(".hidden"), "");
    assert_eq!(stem_of(".hidden"), ".hidden");
    assert_eq!(ext_of("a.b.mp3"), "mp3");
    assert_eq!(stem_of("a.b.mp3"), "a.b");
    assert_eq!(ext_of("noext"), "");
    assert!(is_image("svg") && !is_image("mp3"));
    assert!(is_sound("m4a") && !is_sound("png"));
}

#[test]
fn random_names_have_their_length() {
    let id = hash_id();
    assert_eq!(id.len(), 4);
    let f = hash_filename();
    assert_eq!(f.len(), 32);
    assert!(f.chars().all(|c| c.is_ascii_digit() || c.is_ascii_lowercase()));
}

#[test]
fn sprite_plan_matches_thumbnails_by_stem() {
    let root = vec!["a.png".to_string(), "b.jpg".to_string(), "c.mp3".to_string(), "notes.txt".to_string()];
    let thumbs = vec!["b.png".to_string(), "a.gif".to_string(), "x.png".to_string()];
    let sounds = vec!["s.wav".to_string(), "t.doc".to_string()];
    let plan = plan_sprite(&root, &thumbs, &sounds);
    assert_eq!(plan.pictures, vec![(0, Some(1)), (1, Some(0))]);
    assert_eq!(plan.root_sounds, vec![2]);
    assert_eq!(plan.dir_sounds, vec![0]);
}

#[test]
fn picture_entry_names_files_at_random() {
    let e = entrycore::project::picture_entry("cat", "png", vec![1, 2, 3], Some(("jpg".to_string(), vec![9])));
    assert_eq!(e.meta.width, 100);
    assert_eq!(e.meta.height, 100);
    assert!(e.meta.fileurl.starts_with("image/") && e.meta.fileurl.ends_with(".png"));
    assert!(e.meta.thumburl.starts_with("thumb/") && e.meta.thumburl.ends_with(".jpg"));
    assert_eq!(e.thumb, Some(vec![9]));
    let s = entrycore::project::sound_entry("meow", "mp3", vec![7]);
    assert!(s.meta.fileurl.starts_with("sound/") && s.meta.fileurl.ends_with(".mp3"));
}
