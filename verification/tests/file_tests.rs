use sub_auto_rename::{MovieFile, SubtitleFile, SubtitleFileError};

#[test]
fn movie_file_creation_with_default_extension_test() {
    let movie_extensions = vec!["mp4", "mkv", "flv", "avi", "3gp", "mov"];
    let movie_paths: Vec<String> = movie_extensions
        .iter()
        .map(|ext| format!("mov.{}", ext))
        .collect();

    let total_movie_files_created = movie_paths
        .iter()
        .take_while(|path| MovieFile::new((*path).clone(), None).is_some())
        .count();

    assert_eq!(total_movie_files_created, movie_paths.len())
}

#[test]
fn movie_file_creation_with_extra_extension_test() {
    let extra_extension: Vec<String> = ('a'..'z').map(|ext| ext.to_string()).collect();

    let movie_paths: Vec<String> = extra_extension
        .iter()
        .map(|ext| format!("mov.{}", ext))
        .collect();

    let total_movie_files_created = movie_paths
        .iter()
        .take_while(|path| MovieFile::new((*path).clone(), Some(&extra_extension)).is_some())
        .count();

    assert_eq!(total_movie_files_created, movie_paths.len())
}

#[test]
fn movie_file_creation_unknown_extension_test() {
    assert!(MovieFile::new(String::from("mov.xyz"), None).is_none());
    assert!(MovieFile::new(String::from("noextension"), None).is_none());
    assert!(MovieFile::new(String::from(".mp4"), None).is_none());
}

#[test]
fn movie_file_creation_with_directory_test() {
    let movie_file = MovieFile::new(String::from("season.one/Hellos01e02.mkv"), None);

    assert!(movie_file.is_some());
    assert_eq!(movie_file.unwrap().get_path().as_str(), "season.one/Hellos01e02.mkv");
}

#[test]
fn movie_file_get_path_test() {
    let movie_file = MovieFile::new(String::from("Hellos01e02.mp4"), None).unwrap();

    assert_eq!(movie_file.get_path().as_str(), "Hellos01e02.mp4");
}

#[test]
fn subtitle_file_try_from_test() {
    let subtitle_file = SubtitleFile::try_from(String::from("Hellos01e02.srt"));
    assert!(subtitle_file.is_ok());
    assert_eq!(subtitle_file.unwrap().get_path().as_str(), "Hellos01e02.srt");

    let not_a_subtitle = SubtitleFile::try_from(String::from("Hellos01e02.mp4"));
    assert!(matches!(
        not_a_subtitle,
        Err(SubtitleFileError::InvalidSubtileFileName)
    ));

    let no_extension = SubtitleFile::try_from(String::from("Hellos01e02"));
    assert!(matches!(
        no_extension,
        Err(SubtitleFileError::InvalidSubtileFileName)
    ));
}

#[test]
fn rename_target_match_test() {
    let movie_file = MovieFile::new(String::from("some.video.file.S04 E01.mp4"), None).unwrap();
    let subtitle_file = SubtitleFile::try_from(String::from("subs.S04E01.srt")).unwrap();

    let target = subtitle_file.rename_target(&movie_file);

    assert_eq!(target.unwrap(), "some.video.file.S04 E01.srt");
}

#[test]
fn rename_target_mismatch_test() {
    let movie_file = MovieFile::new(String::from("some.video.file.S04 E01.mp4"), None).unwrap();
    let subtitle_file = SubtitleFile::try_from(String::from("subs.S04E02.srt")).unwrap();

    let target = subtitle_file.rename_target(&movie_file);

    assert!(matches!(
        target,
        Err(SubtitleFileError::MovieSubFileNamesMismatch)
    ));
}

#[test]
fn rename_target_no_signature_test() {
    let movie_file = MovieFile::new(String::from("HelloWorld.mp4"), None).unwrap();
    let subtitle_file = SubtitleFile::try_from(String::from("subs.S04E01.srt")).unwrap();

    let target = subtitle_file.rename_target(&movie_file);

    assert!(matches!(
        target,
        Err(SubtitleFileError::MovieSubFileNamesMismatch)
    ));
}
