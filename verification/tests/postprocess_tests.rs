use agpeer::common::Error;
use agpeer::jobs::{Job, JobState, Step, StepKind, StepState};
use agpeer::ids::TransferId;
use agpeer::postprocess::classify::{classify, Category};
use agpeer::postprocess::extract::{is_multipart, sanitize_entry_path};
use agpeer::postprocess::organize::{clean_title, media_kind_for, place_step, title_from_path, MediaKind, Organizer, PlaceStep};
use agpeer::postprocess::pipeline::{resume_from, Pipeline, RunAction, StepReport, StepWork, InstallerPolicy};

#[test]
fn categories_map_correctly() {
    assert_eq!(classify("file.zip"), Category::Archive);
    assert_eq!(classify("file.7z"), Category::Archive);
    assert_eq!(classify("file.tar.gz"), Category::Archive);
    assert_eq!(classify("file.mp3"), Category::Audio);
    assert_eq!(classify("song.FLAC"), Category::Audio);
    assert_eq!(classify("movie.mp4"), Category::Video);
    assert_eq!(classify("movie.mkv"), Category::Video);
    assert_eq!(classify("photo.jpg"), Category::Image);
    assert_eq!(classify("photo.PNG"), Category::Image);
    assert_eq!(classify("book.pdf"), Category::Document);
    assert_eq!(classify("notes.md"), Category::Document);
    assert_eq!(classify("setup.exe"), Category::Software);
    assert_eq!(classify("app.AppImage"), Category::Software);
}

#[test]
fn unknown_extension_is_unknown() {
    assert_eq!(classify("file.xyz"), Category::Unknown);
    assert_eq!(classify("no_extension"), Category::Unknown);
}

#[test]
fn sanitize_entry_path_ok() {
    let dest = "/tmp/out";
    assert_eq!(sanitize_entry_path("folder/file.txt", dest).unwrap(), "/tmp/out/folder/file.txt");
}

#[test]
fn sanitize_entry_path_rejects_unsafe() {
    let dest = "/tmp/out";
    for bad in ["../../evil.exe", "..\\evil", "/etc/passwd", "C:\\Windows", "\\\\srv\\share", "a/\0b"] {
        assert_eq!(sanitize_entry_path(bad, dest).unwrap_err().code(), "UnsafePath", "entry: {bad}");
    }
}

#[test]
fn is_multipart_true() {
    for name in ["x.r00", "x.part2.rar", "x.7z.001"] {
        assert!(is_multipart(name), "name: {name}");
    }
}

#[test]
fn is_multipart_false() {
    for name in ["x.rar", "x.zip", "x.r"] {
        assert!(!is_multipart(name), "name: {name}");
    }
}

fn music(artist: &str, album: &str) -> MediaKind {
    MediaKind::Music { artist: Some(artist.to_string()), album: Some(album.to_string()) }
}

#[test]
fn tv_episode_parses() {
    let p = "Game.of.Thrones.S01E01.Winter.is.Coming.mkv";
    assert_eq!(media_kind_for(p), MediaKind::TvSeries { season: Some(1) });
    assert_eq!(title_from_path(p).unwrap(), "Game of Thrones");
}

#[test]
fn season_folder_hint_parses() {
    let p = "The.Office/Season 2/The.Office.S02E05.mkv";
    assert_eq!(media_kind_for(p), MediaKind::TvSeries { season: Some(2) });
}

#[test]
fn movie_year_parses() {
    let p = "The.Matrix.1999.1080p.BluRay.mkv";
    assert_eq!(media_kind_for(p), MediaKind::Movie { year: Some(1999) });
    assert_eq!(title_from_path(p).unwrap(), "The Matrix");
}

#[test]
fn music_artist_album_parses() {
    let p = "Radiohead - OK Computer - 01 Airbag.flac";
    assert_eq!(media_kind_for(p), music("Radiohead", "OK Computer"));
}

#[test]
fn destination_tree_is_jellyfin_friendly() {
    let organizer = Organizer::new("E:\\Media".to_string());
    let show = "Game.of.Thrones.S01E01.Winter.is.Coming.mkv";
    let dst = organizer.destination_for(show, Category::Video);
    assert_eq!(dst, "E:\\Media\\TV Shows\\Game of Thrones\\Season 01");

    let movie = "The.Matrix.1999.1080p.mkv";
    let dst = organizer.destination_for(movie, Category::Video);
    assert_eq!(dst, "E:\\Media\\Movies\\The Matrix (1999)");

    let track = "Radiohead - OK Computer - 01 Airbag.flac";
    let dst = organizer.destination_for(track, Category::Audio);
    assert_eq!(dst, "E:\\Media\\Music\\Radiohead\\OK Computer");
}

#[test]
fn lone_track_lands_in_parent_album_folder() {
    let organizer = Organizer::new("E:\\Media".to_string());
    let src = "E:/Media/Music/Soulseek/user/Some/Album/5-08 Rythm Of The Night.mp3";
    let dst = organizer.destination_for(src, Category::Audio);
    assert_eq!(dst, "E:\\Media\\Music\\Album");
}

#[test]
fn clean_title_removes_tags() {
    assert_eq!(clean_title("The.Matrix.1999.1080p.BluRay"), "The Matrix 1999");
    assert_eq!(clean_title("Show.Name.S01E01.HDTV.x264"), "Show Name S01E01");
}

#[test]
fn organize_target_keeps_file_name() {
    let organizer = Organizer::new("/library".to_string());
    let dst = organizer.destination_file_for("/downloads/Show.Name.S01E01.mkv", Category::Video);
    assert_eq!(dst, "/library/TV Shows/Show Name/Season 01/Show.Name.S01E01.mkv");
    assert!(dst.starts_with("/library"));
    assert_eq!(organizer.category_folder(Category::Image), "Pictures");
}

fn make_step(index: u32, kind: StepKind, state: StepState) -> Step {
    Step { index, kind, state, started_at: None, completed_at: None, error: None }
}

fn make_job(target: &str, steps: Vec<Step>) -> Job {
    Job {
        id: 7,
        transfer_id: TransferId::new(),
        target: target.to_string(),
        state: JobState::Pending,
        steps,
        created_at: 0,
        updated_at: 0,
        error: None,
    }
}

#[test]
fn resume_from_skips_completed() {
    let job = make_job(
        "x.bin",
        vec![make_step(0, StepKind::Verify, StepState::Completed), make_step(1, StepKind::Rename, StepState::Pending)],
    );
    assert_eq!(resume_from(&job), Some(1));
}

#[test]
fn step_kind_names_match_pipeline() {
    assert_eq!(StepKind::Verify.as_str(), "verify");
    assert_eq!(StepKind::Extract.as_str(), "extract");
    assert_eq!(StepKind::InspectMedia.as_str(), "inspect_media");
    assert_eq!(StepKind::RunInstaller.as_str(), "run_installer");
    assert_eq!(StepKind::CustomHook.as_str(), "custom_hook");
}

#[test]
fn step_state_names_match_contract() {
    assert_eq!(StepState::Pending.as_str(), "pending");
    assert_eq!(StepState::Running.as_str(), "running");
    assert_eq!(StepState::Skipped.as_str(), "skipped");
    assert_eq!(JobState::Cancelled.as_str(), "cancelled");
}

#[test]
fn pipeline_completes_verify_rename_move() {
    let pipeline = Pipeline::new();
    let mut job = make_job(
        "sample.bin",
        vec![
            make_step(0, StepKind::Verify, StepState::Pending),
            make_step(1, StepKind::Rename, StepState::Pending),
            make_step(2, StepKind::Move, StepState::Pending),
        ],
    );
    let work = pipeline.begin(&mut job, "/work", "/dest", 1);
    let (index, w) = match work {
        RunAction::Work { index, work } => (index, work),
        other => panic!("expected work, got {other:?}"),
    };
    assert_eq!(index, 0);
    assert!(matches!(&w, StepWork::Verify { path } if path == "/work/sample.bin"));
    let next = pipeline.step_finished(&mut job, 0, &w, StepReport::Done, "/work", "/dest", 2);
    let (index, w) = match next {
        RunAction::Work { index, work } => (index, work),
        other => panic!("expected work, got {other:?}"),
    };
    assert_eq!(index, 2);
    assert!(matches!(&w, StepWork::Place { from, to, .. } if from == "/work/sample.bin" && to == "/dest/sample.bin"));
    let done = pipeline.step_finished(&mut job, 2, &w, StepReport::Done, "/work", "/dest", 3);
    assert!(matches!(done, RunAction::Finished(Ok(()))));
    assert!(job.steps.iter().all(|s| s.state == StepState::Completed));
    assert_eq!(job.state, JobState::Completed);
}

#[test]
fn verify_fails_on_missing_target() {
    let pipeline = Pipeline::new();
    let mut job = make_job("missing.bin", vec![make_step(0, StepKind::Verify, StepState::Pending)]);
    let w = match pipeline.begin(&mut job, "/work", "/dest", 1) {
        RunAction::Work { work, .. } => work,
        other => panic!("expected work, got {other:?}"),
    };
    let err = match pipeline.step_finished(&mut job, 0, &w, StepReport::Absent, "/work", "/dest", 2) {
        RunAction::Finished(Err(e)) => e,
        other => panic!("expected failure, got {other:?}"),
    };
    assert_eq!(err.code(), "ExtractionFailed");
    assert_eq!(job.steps[0].state, StepState::Failed);
    assert_eq!(job.state, JobState::Failed);
}

#[test]
fn installers_and_hooks_are_denied_by_default() {
    let pipeline = Pipeline::new();
    assert_eq!(pipeline.installer_policy, InstallerPolicy::Deny);
    let mut job = make_job("setup.exe", vec![make_step(0, StepKind::RunInstaller, StepState::Pending)]);
    match pipeline.begin(&mut job, "/work", "/dest", 1) {
        RunAction::Finished(Err(Error::ProcessLaunchDenied)) => {}
        other => panic!("expected denial, got {other:?}"),
    }
    assert_eq!(job.state, JobState::Failed);
}

#[test]
fn failed_job_retries_from_the_failed_step() {
    let pipeline = Pipeline::new();
    let mut job = make_job(
        "sample.bin",
        vec![make_step(0, StepKind::Verify, StepState::Pending), make_step(1, StepKind::Move, StepState::Pending)],
    );
    let w = match pipeline.begin(&mut job, "/work", "/dest", 1) {
        RunAction::Work { work, .. } => work,
        other => panic!("expected work, got {other:?}"),
    };
    let w = match pipeline.step_finished(&mut job, 0, &w, StepReport::Done, "/work", "/dest", 2) {
        RunAction::Work { index, work } => {
            assert_eq!(index, 1);
            work
        },
        other => panic!("expected work, got {other:?}"),
    };
    let failed = pipeline.step_finished(&mut job, 1, &w, StepReport::Outside, "/work", "/dest", 3);
    assert!(matches!(failed, RunAction::Finished(Err(ref e)) if e.code() == "UnsafePath"));
    assert_eq!(job.state, JobState::Failed);
    match pipeline.begin(&mut job, "/work", "/dest", 4) {
        RunAction::Work { index, work } => {
            assert_eq!(index, 1);
            assert!(matches!(work, StepWork::Place { .. }));
        },
        other => panic!("expected work, got {other:?}"),
    }
    assert_eq!(job.steps[0].state, StepState::Completed);
}

#[test]
fn web_dl_tag_is_dropped() {
    assert_eq!(clean_title("Movie.WEB-DL"), "Movie");
    assert_eq!(clean_title("Some.Movie.2019.web-dl.x265"), "Some Movie 2019");
}

#[test]
fn dotted_episode_marker_cuts_the_title() {
    let p = "Show.S.01.E.02.mkv";
    assert!(matches!(media_kind_for(p), MediaKind::TvSeries { season: Some(1) }));
    assert_eq!(title_from_path(p).unwrap(), "Show");
    assert_eq!(title_from_path("My_Show - s1 e05.mkv").unwrap(), "My Show");
}

#[test]
fn episode_markers_use_unicode_upper_casing() {
    let p = "Showſ01e01.mkv";
    assert!(matches!(media_kind_for(p), MediaKind::TvSeries { season: Some(1) }));
    assert_eq!(title_from_path(p).unwrap(), "Show");
    assert!(matches!(media_kind_for("Shows/SEASON 02/clip.mkv"), MediaKind::TvSeries { season: Some(2) }));
}

#[test]
fn placing_a_file_checks_path_root_then_destination() {

    assert_eq!(place_step(true, false, true), PlaceStep::AlreadyInPlace);
    assert_eq!(place_step(false, false, false), PlaceStep::Outside);
    assert_eq!(place_step(false, true, true), PlaceStep::Occupied);
    assert_eq!(place_step(false, true, false), PlaceStep::Move);
}

#[test]
fn tags_match_unicode_upper_case_forms() {
    assert_eq!(clean_title("Film.DTſ.2020"), "Film 2020");
    assert_eq!(clean_title("Straße.1080p"), "Straße");
}

#[test]
fn tags_inside_words_are_kept() {
    assert_eq!(clean_title("Isaac.Newton"), "Isaac Newton");
    assert_eq!(clean_title("Hdtvshow.720p"), "Hdtvshow");
    assert_eq!(clean_title("Film [DTS] (1080p)"), "Film");
    assert_eq!(clean_title("Aac.Film"), "Film");
}

#[test]
fn driven_run_ends_with_every_remaining_step_completed() {
    let pipeline = Pipeline::new();
    let mut job = make_job(
        "sample.bin",
        vec![
            make_step(0, StepKind::Verify, StepState::Completed),
            make_step(1, StepKind::Verify, StepState::Pending),
            make_step(2, StepKind::Rename, StepState::Pending),
            make_step(3, StepKind::Move, StepState::Pending),
        ],
    );
    let mut action = pipeline.begin(&mut job, "/work", "/dest", 1);
    let mut now = 1;
    let mut calls = 0;
    loop {
        match action {
            RunAction::Work { index, work } => {
                assert!(index >= 1);
                now += 1;
                calls += 1;
                action = pipeline.step_finished(&mut job, index, &work, StepReport::Done, "/work", "/dest", now);
            },
            RunAction::Finished(r) => {
                assert!(r.is_ok());
                break;
            },
        }
    }
    assert_eq!(calls, 2);
    assert_eq!(job.steps[0].completed_at, None);
    assert!(job.steps.iter().all(|s| s.state == StepState::Completed));
    assert_eq!(job.state, JobState::Completed);
}
