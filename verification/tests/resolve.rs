use sound_bored::resolve::{
    candidate_path, collect_sample_paths, resolve_paths, Format, Presence,
};
use sound_bored::{get_audio_file_paths, get_sample_paths, Error};
use std::path::{Path, PathBuf};
use tempfile::NamedTempFile;

fn text(path: PathBuf) -> String {
    path.to_str().unwrap().to_string()
}

/// Creates the empty file `name` in `dir`. It is there while the handle lives.
fn create(dir: &Path, name: &str) -> NamedTempFile {
    tempfile::Builder::new()
        .prefix(name)
        .rand_bytes(0)
        .tempfile_in(dir)
        .unwrap()
}

const BOTH: Presence = Presence { wav: true, mp3: true };
const WAV: Presence = Presence { wav: true, mp3: false };
const MP3: Presence = Presence { wav: false, mp3: true };
const NEITHER: Presence = Presence { wav: false, mp3: false };

/// Creates the directory `tests/samples` with the WAV files `and` and
/// `fuck` in it, where the place in which the tests run can be written to.
fn samples_in_place() -> Option<(tempfile::TempDir, NamedTempFile, NamedTempFile)> {
    let dir = tempfile::Builder::new()
        .prefix("samples")
        .rand_bytes(0)
        .tempdir_in("tests")
        .ok()?;
    let and = create(dir.path(), "and.wav");
    let fuck = create(dir.path(), "fuck.wav");
    Some((dir, and, fuck))
}

#[test]
fn get_sample_paths_finds_files() {
    if let Some(_samples) = samples_in_place() {
        let paths = get_sample_paths("tests/samples", &["and", "fuck"]);
        assert_eq!(
            paths,
            Some(vec![
                text(PathBuf::from("tests/samples/and.wav")),
                text(PathBuf::from("tests/samples/fuck.wav")),
            ])
        )
    } else {
        // This place cannot be written to: the same files, in the same
        // directory under one that can.
        let root = tempfile::tempdir().unwrap();
        let tests = tempfile::Builder::new()
            .prefix("tests")
            .rand_bytes(0)
            .tempdir_in(root.path())
            .unwrap();
        let samples = tempfile::Builder::new()
            .prefix("samples")
            .rand_bytes(0)
            .tempdir_in(tests.path())
            .unwrap();
        let _and = create(samples.path(), "and.wav");
        let _fuck = create(samples.path(), "fuck.wav");

        let directory = text(root.path().join("tests/samples"));
        let paths = get_sample_paths(&directory, &["and", "fuck"]);
        assert_eq!(
            paths,
            Some(vec![
                text(root.path().join("tests/samples/and.wav")),
                text(root.path().join("tests/samples/fuck.wav")),
            ])
        )
    }
}

#[test]
fn get_sample_paths_finds_none() {
    let paths = get_sample_paths("tests", &["and", "fuck"]);
    assert_eq!(paths, None,)
}

#[test]
fn it_should_get_a_wav_file() {
    let dir = tempfile::tempdir().unwrap();
    let _wav = create(dir.path(), "test.wav");

    let paths = get_audio_file_paths(dir.path().to_str().unwrap(), &vec!["test"]).unwrap();

    assert_eq!(paths, &[text(dir.path().join("test.wav"))]);
}

#[test]
fn it_should_get_an_mp3_file() {
    let dir = tempfile::tempdir().unwrap();
    let _mp3 = create(dir.path(), "test.mp3");

    let paths = get_audio_file_paths(dir.path().to_str().unwrap(), &vec!["test"]).unwrap();

    assert_eq!(paths, &[text(dir.path().join("test.mp3"))]);
}

#[test]
fn it_should_get_an_mp3_and_a_wav() {
    let dir = tempfile::tempdir().unwrap();
    let _mp3 = create(dir.path(), "mp3.mp3");
    let _wav = create(dir.path(), "wav.wav");

    let paths = get_audio_file_paths(dir.path().to_str().unwrap(), &vec!["wav", "mp3"]).unwrap();

    assert_eq!(
        paths,
        &[
            text(dir.path().join("wav.wav")),
            text(dir.path().join("mp3.mp3"))
        ]
    );
}

#[test]
fn it_should_get_wav_over_mp3() {
    let dir = tempfile::tempdir().unwrap();
    let _mp3 = create(dir.path(), "test.mp3");
    let _wav = create(dir.path(), "test.wav");

    let paths = get_audio_file_paths(dir.path().to_str().unwrap(), &["test"]).unwrap();

    assert_eq!(paths, &[text(dir.path().join("test.wav"))]);
}

#[test]
fn it_should_error_with_file_not_found() {
    let dir = tempfile::tempdir().unwrap();

    let res = get_audio_file_paths(dir.path().to_str().unwrap(), &["test"]);

    match res.expect_err("Expected an error") {
        Error::FileNotFound(directory, name) => assert_eq!(
            (directory, name),
            (text(dir.path().to_path_buf()), String::from("test"))
        ),
        _ => panic!("Expected FileNotFound Error"),
    }
}

#[test]
fn it_should_error_with_diretory_not_found() {
    let dir = tempfile::tempdir().unwrap();
    let path = dir.path().to_path_buf();
    drop(dir);

    let res = get_audio_file_paths(path.to_str().unwrap(), &["test"]);

    match res.expect_err("Expected an error") {
        Error::DirectoryNotFound(p) => assert_eq!(p, text(path)),
        _ => panic!("Expected DirectoryNotFound Error"),
    }
}

#[test]
fn no_names_are_refused_before_the_directory_is_looked_at() {
    let names: [&str; 0] = [];
    match get_audio_file_paths("does/not/exist", &names) {
        Err(Error::NoSamples) => (),
        _ => panic!("Expected NoSamples Error"),
    }
    let dir = tempfile::tempdir().unwrap();
    match get_audio_file_paths(dir.path().to_str().unwrap(), &names) {
        Err(Error::NoSamples) => (),
        _ => panic!("Expected NoSamples Error"),
    }
}

#[test]
fn a_file_in_place_of_the_directory_is_no_directory() {
    let dir = tempfile::tempdir().unwrap();
    let _file = create(dir.path(), "samples");
    let path = text(dir.path().join("samples"));

    match get_audio_file_paths(&path, &["test"]) {
        Err(Error::DirectoryNotFound(p)) => assert_eq!(p, path),
        _ => panic!("Expected DirectoryNotFound Error"),
    }
}

#[test]
fn a_directory_named_like_a_sample_is_no_sample() {
    let dir = tempfile::tempdir().unwrap();
    let _sub = tempfile::Builder::new()
        .prefix("test.wav")
        .rand_bytes(0)
        .tempdir_in(dir.path())
        .unwrap();
    let directory = text(dir.path().to_path_buf());

    match get_audio_file_paths(&directory, &["test"]) {
        Err(Error::FileNotFound(d, n)) => assert_eq!((d, n), (directory.clone(), "test".to_string())),
        _ => panic!("Expected FileNotFound Error"),
    }

    // The MP3 file is still found behind it.
    let _mp3 = create(dir.path(), "test.mp3");
    let paths = get_audio_file_paths(&directory, &["test"]).unwrap();
    assert_eq!(paths, &[text(dir.path().join("test.mp3"))]);
}

#[test]
fn the_first_missing_name_is_reported() {
    let dir = tempfile::tempdir().unwrap();
    let _a = create(dir.path(), "a.wav");
    let _d = create(dir.path(), "d.mp3");
    let directory = text(dir.path().to_path_buf());

    match get_audio_file_paths(&directory, &["a", "b", "c", "d"]) {
        Err(Error::FileNotFound(d, n)) => assert_eq!((d, n), (directory, "b".to_string())),
        _ => panic!("Expected FileNotFound Error"),
    }
}

#[test]
fn a_name_keeps_its_dots() {
    let dir = tempfile::tempdir().unwrap();
    let _wav = create(dir.path(), "take.2.wav");

    let paths = get_audio_file_paths(dir.path().to_str().unwrap(), &["take.2"]).unwrap();

    assert_eq!(paths, &[text(dir.path().join("take.2.wav"))]);
}

#[test]
fn candidate_paths_are_directory_name_and_extension() {
    assert_eq!(candidate_path("samples", "the", Format::Wav), "samples/the.wav");
    assert_eq!(candidate_path("samples", "the", Format::Mp3), "samples/the.mp3");
    assert_eq!(candidate_path(".", "a b", Format::Wav), "./a b.wav");
    assert_eq!(candidate_path("", "", Format::Mp3), "/.mp3");
    assert_eq!(Format::Wav.extension(), "wav");
    assert_eq!(Format::Mp3.extension(), "mp3");
}

#[test]
fn wav_is_preferred_where_both_are_there() {
    assert_eq!(BOTH.preferred(), Some(Format::Wav));
    assert_eq!(WAV.preferred(), Some(Format::Wav));
    assert_eq!(MP3.preferred(), Some(Format::Mp3));
    assert_eq!(NEITHER.preferred(), None);
}

#[test]
fn resolve_paths_takes_each_sample_in_its_preferred_format() {
    let paths = resolve_paths("dir", &["a", "b", "c"], true, &[BOTH, MP3, WAV]).unwrap();
    assert_eq!(paths, &["dir/a.wav", "dir/b.mp3", "dir/c.wav"]);
}

#[test]
fn resolve_paths_refuses_no_names_first() {
    for found in [true, false] {
        match resolve_paths("dir", &[], found, &[BOTH]) {
            Err(Error::NoSamples) => (),
            _ => panic!("Expected NoSamples Error"),
        }
    }
}

#[test]
fn resolve_paths_reports_the_missing_directory_before_any_name() {
    match resolve_paths("dir", &["a", "b"], false, &[BOTH, NEITHER]) {
        Err(Error::DirectoryNotFound(d)) => assert_eq!(d, "dir"),
        _ => panic!("Expected DirectoryNotFound Error"),
    }
}

#[test]
fn resolve_paths_reports_the_first_missing_name() {
    match resolve_paths("dir", &["a", "b", "c"], true, &[WAV, NEITHER, NEITHER]) {
        Err(Error::FileNotFound(d, n)) => assert_eq!((d.as_str(), n.as_str()), ("dir", "b")),
        _ => panic!("Expected FileNotFound Error"),
    }
    // A name of which nothing is said is missing.
    match resolve_paths("dir", &["a", "b", "c"], true, &[WAV, MP3]) {
        Err(Error::FileNotFound(d, n)) => assert_eq!((d.as_str(), n.as_str()), ("dir", "c")),
        _ => panic!("Expected FileNotFound Error"),
    }
}

#[test]
fn get_sample_paths_finds_wav_files_only() {
    let dir = tempfile::tempdir().unwrap();
    let _and = create(dir.path(), "and.wav");
    let _the = create(dir.path(), "the.wav");
    let _mp3 = create(dir.path(), "hey.mp3");
    let directory = text(dir.path().to_path_buf());

    let paths = get_sample_paths(&directory, &["and", "the"]);
    assert_eq!(
        paths,
        Some(vec![
            text(dir.path().join("and.wav")),
            text(dir.path().join("the.wav")),
        ])
    );

    assert_eq!(get_sample_paths(&directory, &["and", "hey"]), None);
    assert_eq!(get_sample_paths(&directory, &[]), Some(vec![]));
    assert_eq!(get_sample_paths("does/not/exist", &[]), Some(vec![]));
}

#[test]
fn collect_sample_paths_needs_every_file() {
    assert_eq!(
        collect_sample_paths("dir", &["a", "b"], &[true, true]),
        Some(vec!["dir/a.wav".to_string(), "dir/b.wav".to_string()])
    );
    assert_eq!(collect_sample_paths("dir", &["a", "b"], &[true, false]), None);
    assert_eq!(collect_sample_paths("dir", &["a", "b"], &[false, true]), None);
    assert_eq!(collect_sample_paths("dir", &["a", "b"], &[true]), None);
    assert_eq!(collect_sample_paths("dir", &[], &[]), Some(vec![]));
    assert_eq!(collect_sample_paths("dir", &[], &[false]), Some(vec![]));
}
