use casm::config::ConvertProfile;
use casm::error::ProcessError;
use casm::exclude::{compile_exclude, ExcludeError, ExcludeSet};
use casm::musicfile::{relative_to, FilePlan, Mode, Musicfile};
use casm::paths::{normalize_path, replace_extension, split_components};

fn lossy_profile() -> ConvertProfile {
    ConvertProfile {
        target_format: "OPUS".to_owned(),
        acceptable_formats: vec!["quality:lossy".to_owned()],
        bit_rate: 320,
    }
}

#[test]
fn test_matches_exclude() {
    let filename = "test-files/folder1/How Doth The Little Crocodile.mp3";
    let exclude = Some(ExcludeSet::new(vec![r"^.*Crocodile\.mp3$".to_owned()]).unwrap());
    assert_eq!(Musicfile::new(filename, &exclude), None);
}

#[test]
fn test_not_matches_exclude() {
    let filename = "test-files/folder1/How Doth The Little Crocodile.mp3";
    let exclude = Some(ExcludeSet::new(vec![r"^.*Alligator\.mp3$".to_owned()]).unwrap());
    let expected_musicfile = Musicfile { filename: filename.to_owned() };
    assert_eq!(Musicfile::new(filename, &exclude), Some(expected_musicfile));
}

#[test]
fn test_no_exclude() {
    let filename = "test-files/folder1/How Doth The Little Crocodile.mp3";
    let exclude = None;
    let expected_musicfile = Musicfile { filename: filename.to_owned() };
    assert_eq!(Musicfile::new(filename, &exclude), Some(expected_musicfile));
}

#[test]
fn text_file_is_not_music() {
    assert_eq!(Musicfile::new("test-files/folder2/notmusic.txt", &None), None);
    assert_eq!(Musicfile::new("test-files/folder1", &None), None);
}

#[test]
fn new_normalizes_the_path() {
    let m = Musicfile::new("test-files//folder1/./song.flac", &None).unwrap();
    assert_eq!(m.filename, "test-files/folder1/song.flac");
}

#[test]
fn invalid_exclude_pattern_is_refused() {
    assert!(matches!(ExcludeSet::new(vec!["(unclosed".to_owned()]), Err(ExcludeError::InvalidPattern)));
    assert!(matches!(compile_exclude(Some(vec!["[".to_owned()])), Err(ExcludeError::InvalidPattern)));
    assert!(matches!(compile_exclude(None), Ok(None)));
}

#[test]
fn set_matches_only_its_own_patterns() {
    let single = ExcludeSet::new(vec!["x".to_owned()]).unwrap();
    let empty = ExcludeSet::new(vec![]).unwrap();
    assert!(single.is_match("x"));
    assert!(!empty.is_match("x"));
}

#[test]
fn empty_exclude_set_matches_nothing() {
    let set = ExcludeSet::new(vec![]).unwrap();
    assert!(!set.is_match("anything.mp3"));
    let set = ExcludeSet::new(vec!["a".to_owned(), "^z".to_owned()]).unwrap();
    assert!(set.is_match("cat.mp3"));
    assert!(!set.is_match("dog.mp3"));
}

#[test]
fn lossy_file_is_copied_with_its_extension() {
    let file = Musicfile { filename: "music/Artist/Album/song.mp3".to_owned() };
    let plan = file.process_file("music", "/mnt/out", Some("MP3"), &lossy_profile()).unwrap();
    assert_eq!(
        plan,
        FilePlan {
            dest_dir: "/mnt/out/Artist/Album".to_owned(),
            dest_path: "/mnt/out/Artist/Album/song.mp3".to_owned(),
            mode: Mode::Copy,
        }
    );
}

#[test]
fn lossless_file_is_transcoded_to_target_extension() {
    let file = Musicfile { filename: "/home/me/Music/Band/track.flac".to_owned() };
    let plan = file.process_file("/home/me/Music/", "out", Some("flac"), &lossy_profile()).unwrap();
    assert_eq!(plan.dest_dir, "out/Band");
    assert_eq!(plan.dest_path, "out/Band/track.opus");
    assert_eq!(plan.mode, Mode::Transcode { bit_rate: 320 * 1024 });
}

#[test]
fn copy_keeps_codec_extension_even_if_file_differs() {
    let file = Musicfile { filename: "src/a.ogg".to_owned() };
    let plan = file.process_file("src", "dst", Some("OPUS"), &lossy_profile()).unwrap();
    assert_eq!(plan.dest_path, "dst/a.opus");
    assert_eq!(plan.dest_dir, "dst");
    assert_eq!(plan.mode, Mode::Copy);
}

#[test]
fn process_file_errors() {
    let file = Musicfile { filename: "src/a.mp3".to_owned() };
    let p = lossy_profile();
    assert_eq!(file.process_file("src", "dst", None, &p), Err(ProcessError::NoAudioCodec));
    assert_eq!(file.process_file("src", "dst", Some("H264"), &p), Err(ProcessError::UnknownCodec));
    let bad_target = ConvertProfile { target_format: "NOPE".to_owned(), ..lossy_profile() };
    assert_eq!(file.process_file("src", "dst", Some("MP3"), &bad_target), Err(ProcessError::UnknownTargetFormat));
    assert_eq!(file.process_file("other", "dst", Some("MP3"), &p), Err(ProcessError::OutsideSource));
    assert_eq!(file.process_file("src/a.mp3", "dst", Some("MP3"), &p), Err(ProcessError::OutsideSource));
    assert_eq!(file.process_file("/src", "dst", Some("MP3"), &p), Err(ProcessError::OutsideSource));
    let huge = ConvertProfile {
        target_format: "OPUS".to_owned(),
        acceptable_formats: vec![],
        bit_rate: usize::MAX,
    };
    assert_eq!(file.process_file("src", "dst", Some("MP3"), &huge), Err(ProcessError::BitRateTooLarge));
    assert_eq!(ProcessError::UnknownCodec.describe(), "Not an acceptable music file");
    assert_eq!(ProcessError::OutsideSource.describe(), "Could not strip prefix from filename");
}

#[test]
fn existing_destination_is_not_written() {
    let file = Musicfile { filename: "src/a.flac".to_owned() };
    let plan = file.process_file("src", "dst", Some("FLAC"), &lossy_profile()).unwrap();
    assert_eq!(file.next_operation(&plan, false), Some(Mode::Transcode { bit_rate: 327680 }));
    assert_eq!(file.next_operation(&plan, true), None);
    assert!(file.should_write(false));
    assert!(!file.should_write(true));
}

#[test]
fn second_run_performs_no_operation() {
    let files = vec![
        Musicfile { filename: "src/x/a.flac".to_owned() },
        Musicfile { filename: "src/x/b.mp3".to_owned() },
    ];
    let probes = ["FLAC", "MP3"];
    let mut written: Vec<String> = Vec::new();
    for (f, c) in files.iter().zip(probes.iter()) {
        let plan = f.process_file("src", "dst", Some(c), &lossy_profile()).unwrap();
        let exists = written.contains(&plan.dest_path);
        if f.next_operation(&plan, exists).is_some() {
            written.push(plan.dest_path.clone());
        }
    }
    assert_eq!(written.len(), 2);
    let mut second_run_ops = 0;
    for (f, c) in files.iter().zip(probes.iter()) {
        let plan = f.process_file("src", "dst", Some(c), &lossy_profile()).unwrap();
        let exists = written.contains(&plan.dest_path);
        if f.next_operation(&plan, exists).is_some() {
            second_run_ops += 1;
        }
    }
    assert_eq!(second_run_ops, 0);
}

#[test]
fn path_helpers() {
    assert_eq!(normalize_path("a//b/./c/"), "a/b/c");
    assert_eq!(normalize_path("/x//y"), "/x/y");
    assert_eq!(normalize_path(""), "");
    assert_eq!(split_components("/a/b"), vec!["a".to_owned(), "b".to_owned()]);
    assert_eq!(replace_extension("song.flac", "opus"), "song.opus");
    assert_eq!(replace_extension("song", "mp3"), "song.mp3");
    assert_eq!(replace_extension(".hidden", "mp3"), ".hidden.mp3");
    assert_eq!(replace_extension("a.b.c", "wav"), "a.b.wav");
    assert_eq!(replace_extension("track.wv", ".wv"), "track..wv");
    assert_eq!(relative_to("m/a/b.mp3", "m"), Some(vec!["a".to_owned(), "b.mp3".to_owned()]));
    assert_eq!(relative_to("m/a/b.mp3", "n"), None);
}
