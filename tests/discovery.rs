use casm::discovery::{collect_music_files, pattern_under};
use casm::exclude::ExcludeSet;
use casm::musicfile::Musicfile;

const CROCODILE: &str = "test-files/folder1/How Doth The Little Crocodile.mp3";

fn strings(v: &[&str]) -> Vec<String> {
    v.iter().map(|s| s.to_string()).collect()
}

#[test]
fn test_scan_folder() {
    // A folder input walks to the folder itself and the files under it.
    assert_eq!(pattern_under("test-files", "folder1"), "test-files/folder1");
    let walked = strings(&["test-files/folder1", CROCODILE]);
    let musicfiles = collect_music_files(&walked, &None);
    let should_contain = Musicfile { filename: CROCODILE.to_owned() };
    assert_eq!(musicfiles.contains(&should_contain), true);
    assert_eq!(musicfiles.len(), 1);
}

#[test]
fn test_scan_glob() {
    assert_eq!(pattern_under("test-files", "folder*/*Crocodile*"), "test-files/folder*/*Crocodile*");
    let walked = strings(&[CROCODILE]);
    let musicfiles = collect_music_files(&walked, &None);
    let should_contain = Musicfile { filename: CROCODILE.to_owned() };
    assert_eq!(musicfiles.contains(&should_contain), true);
    assert_eq!(musicfiles.len(), 1);
}

#[test]
fn test_scan_filename() {
    let pattern = pattern_under("test-files/", "/folder1/How Doth The Little Crocodile.mp3");
    assert_eq!(pattern, "test-files///folder1/How Doth The Little Crocodile.mp3");
    let musicfiles = collect_music_files(&vec![pattern], &None);
    let should_contain = Musicfile { filename: CROCODILE.to_owned() };
    assert_eq!(musicfiles.contains(&should_contain), true);
    assert_eq!(musicfiles.len(), 1);
}

#[test]
fn test_scan_empty() {
    // `folder1/*.txt` matches nothing, so the walk meets no path.
    assert_eq!(pattern_under("test-files", "folder1/*.txt"), "test-files/folder1/*.txt");
    let walked: Vec<String> = Vec::new();
    let musicfiles = collect_music_files(&walked, &None);
    assert_eq!(musicfiles.is_empty(), true);
}

#[test]
fn test_scan_nonexistant() {
    // `not_a_folder` names nothing on disk, so the walk meets no path.
    assert_eq!(pattern_under("test-files", "not_a_folder"), "test-files/not_a_folder");
    let walked: Vec<String> = Vec::new();
    let musicfiles = collect_music_files(&walked, &None);
    assert_eq!(musicfiles.is_empty(), true);
}

#[test]
fn test_scan_text_file() {
    let walked = strings(&["test-files/folder2/notmusic.txt"]);
    let musicfiles = collect_music_files(&walked, &None);
    assert_eq!(musicfiles.is_empty(), true);
}

#[test]
fn test_scan_duplicates() {
    // The literal path, the folder and `folder1/*` all reach one file.
    let walked = strings(&[
        "test-files/folder1/How Doth The Little Crocodile.mp3",
        "test-files/folder1/",
        "test-files/folder1/How Doth The Little Crocodile.mp3",
        "test-files/folder1/How Doth The Little Crocodile.mp3",
    ]);
    let musicfiles = collect_music_files(&walked, &None);
    let should_contain = Musicfile { filename: CROCODILE.to_owned() };
    assert_eq!(musicfiles.contains(&should_contain), true);
    assert_eq!(musicfiles.len(), 1);
}

#[test]
fn spellings_of_one_path_are_one_file() {
    let walked = strings(&["lib/a.flac", "lib//a.flac", "./lib/a.flac", "lib/./a.flac", "lib/b.ogg"]);
    let musicfiles = collect_music_files(&walked, &None);
    let names: Vec<&str> = musicfiles.iter().map(|m| m.filename.as_str()).collect();
    assert_eq!(names, vec!["lib/a.flac", "lib/b.ogg"]);
}

#[test]
fn excluded_file_is_never_discovered() {
    let exclude = Some(ExcludeSet::new(vec![r".*[Ii]nstrumental.*".to_owned()]).unwrap());
    let walked = strings(&["lib/song.mp3", "lib/song (Instrumental).mp3", "lib/song (Instrumental).mp3"]);
    let musicfiles = collect_music_files(&walked, &exclude);
    assert_eq!(musicfiles, vec![Musicfile { filename: "lib/song.mp3".to_owned() }]);
}

#[test]
fn non_audio_files_are_left_out() {
    let walked = strings(&["lib/cover.jpg", "lib/notes.txt", "lib/track.flac", "lib"]);
    let musicfiles = collect_music_files(&walked, &None);
    assert_eq!(musicfiles, vec![Musicfile { filename: "lib/track.flac".to_owned() }]);
}

#[test]
fn rediscovering_the_result_changes_nothing() {
    let walked = strings(&["lib//b.ogg", "lib/a.flac", "lib/./b.ogg", "lib/a.txt"]);
    let first = collect_music_files(&walked, &None);
    let names: Vec<String> = first.iter().map(|m| m.filename.clone()).collect();
    let second = collect_music_files(&names, &None);
    assert_eq!(first, second);
    assert_eq!(names, vec!["lib/b.ogg".to_owned(), "lib/a.flac".to_owned()]);
}
