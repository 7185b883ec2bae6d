use editor_dojo::application::challenge_runner::{build_solution, decide_step, RunEvent, RunStep};
use editor_dojo::application::SolutionValidator;
use editor_dojo::domain::{Challenge, KeySequence, Progress, Recording};
use editor_dojo::infrastructure::challenge_loader::{ChallengeDefinition, TomlChallengeLoader};
use editor_dojo::time::{Duration, Timestamp};
use editor_dojo::ui::challenge_list_screen::{
    ChallengeListScreen, DisplayMode, FilterMode, ListOutcome,
};
use editor_dojo::ui::challenge_screen::{BriefOutcome, ChallengeMode, ChallengeScreen};
use editor_dojo::ui::{Key, MainMenuScreen, MenuAction, ProgressScreen, ResultsScreen};

#[test]
fn the_main_menu() {
    let mut menu = MainMenuScreen::new();
    assert_eq!(menu.selected_index(), 0);
    let labels: Vec<&str> = menu.options().iter().map(|o| o.0).collect();
    assert_eq!(labels, vec!["Start Training", "View Progress", "Browse Challenges", "Settings", "Quit"]);
    assert_eq!(menu.handle_key(Key::Up), None);
    assert_eq!(menu.selected_index(), 0);
    assert_eq!(menu.handle_key(Key::Enter), Some(MenuAction::StartTraining));
    assert_eq!(menu.handle_key(Key::Down), None);
    assert_eq!(menu.handle_key(Key::Char('j')), None);
    assert_eq!(menu.selected_index(), 2);
    assert_eq!(menu.handle_key(Key::Enter), Some(MenuAction::BrowseChallenges));
    assert_eq!(menu.handle_key(Key::Char('k')), None);
    assert_eq!(menu.handle_key(Key::Enter), Some(MenuAction::ViewProgress));
    for _ in 0..10 {
        assert_eq!(menu.handle_key(Key::Down), None);
    }
    assert_eq!(menu.selected_index(), 4);
    assert_eq!(menu.handle_key(Key::Enter), Some(MenuAction::Quit));
    assert_eq!(menu.handle_key(Key::Char('x')), None);
    assert_eq!(menu.handle_key(Key::Other), None);
    assert_eq!(menu.handle_key(Key::Char('q')), Some(MenuAction::Quit));
    assert_eq!(menu.handle_key(Key::Esc), Some(MenuAction::Quit));
    assert_eq!(menu.selected_index(), 4);
}

#[test]
fn times_in_words() {
    let secs = Duration::from_secs;
    assert_eq!(MainMenuScreen::format_duration(secs(0)), "0m");
    assert_eq!(MainMenuScreen::format_duration(secs(59)), "0m");
    assert_eq!(MainMenuScreen::format_duration(secs(60)), "1m");
    assert_eq!(MainMenuScreen::format_duration(secs(3599)), "59m");
    assert_eq!(MainMenuScreen::format_duration(secs(3600)), "1h 0m");
    assert_eq!(MainMenuScreen::format_duration(secs(2 * 3600 + 5 * 60 + 59)), "2h 5m");
    assert_eq!(ProgressScreen::format_duration(secs(0)), "0s");
    assert_eq!(ProgressScreen::format_duration(secs(59)), "59s");
    assert_eq!(ProgressScreen::format_duration(secs(60)), "1m");
    assert_eq!(ProgressScreen::format_duration(secs(3600)), "1h 0m");
    assert_eq!(ProgressScreen::format_duration(secs(100_000)), "27h 46m");
    assert_eq!(ProgressScreen::format_solve_time(secs(59)), "59s");
    assert_eq!(ProgressScreen::format_solve_time(secs(60)), "1m 0s");
    assert_eq!(ProgressScreen::format_solve_time(secs(3725)), "62m 5s");
    assert_eq!(ProgressScreen::format_streak(0), "0 days");
    assert_eq!(ProgressScreen::format_streak(3), "3 days 🔥");
    assert_eq!(ResultsScreen::format_elapsed(0), "Time: 0:00s");
    assert_eq!(ResultsScreen::format_elapsed(9), "Time: 0:09s");
    assert_eq!(ResultsScreen::format_elapsed(75), "Time: 1:15s");
    assert_eq!(ResultsScreen::format_elapsed(3600), "Time: 60:00s");
    assert_eq!(ResultsScreen::title(true), "✓ CHALLENGE COMPLETE!");
    assert_eq!(ResultsScreen::title(false), "✗ CHALLENGE INCOMPLETE");
}

#[test]
fn paths_for_display() {
    assert_eq!(ResultsScreen::abbreviate_path("/home/u/rec/a.cast", Some("/home/u")), "~/rec/a.cast");
    assert_eq!(ResultsScreen::abbreviate_path("/home/u", Some("/home/u")), "~");
    assert_eq!(ResultsScreen::abbreviate_path("/home/v/a", Some("/home/u")), "/home/v/a");
    assert_eq!(ResultsScreen::abbreviate_path("/h", Some("/home/u")), "/h");
    assert_eq!(ResultsScreen::abbreviate_path("/home/u/a", None), "/home/u/a");
    assert_eq!(ResultsScreen::abbreviate_path("/home/u/a", Some("")), "~/home/u/a");
}

#[test]
fn keys_that_leave() {
    assert!(ProgressScreen::is_dismiss_key(Key::Esc));
    assert!(ProgressScreen::is_dismiss_key(Key::Char('q')));
    assert!(ProgressScreen::is_dismiss_key(Key::Enter));
    assert!(ProgressScreen::is_dismiss_key(Key::Char(' ')));
    assert!(!ProgressScreen::is_dismiss_key(Key::Char('x')));
    assert!(!ProgressScreen::is_dismiss_key(Key::Up));
    assert!(ResultsScreen::is_dismiss_key(Key::Char('x')));
    assert!(ResultsScreen::is_dismiss_key(Key::Enter));
    assert!(ResultsScreen::is_dismiss_key(Key::Esc));
    assert!(!ResultsScreen::is_dismiss_key(Key::Down));
    assert!(!ResultsScreen::is_dismiss_key(Key::Other));
}

#[test]
fn tiers_are_counted() {
    let at = Timestamp::new(1000, 0);
    let mut progress = Progress::new();
    progress.record_attempt("g1".to_string(), true, Duration::from_secs(5), Some(5), at);
    progress.record_attempt("g2".to_string(), true, Duration::from_secs(5), Some(5), at);
    progress.record_attempt("s".to_string(), true, Duration::from_secs(20), Some(40), at);
    progress.record_attempt("b".to_string(), true, Duration::from_secs(5), None, at);
    progress.record_attempt("n".to_string(), false, Duration::from_secs(5), Some(5), at);
    assert_eq!(ProgressScreen::tier_counts(&progress), (2, 1, 1));
    assert_eq!(ProgressScreen::tier_counts(&Progress::new()), (0, 0, 0));
}

#[test]
fn the_challenge_brief() {
    let mut brief = ChallengeScreen::new();
    assert_eq!(brief.mode_indicator(), " [CHALLENGE MODE]");
    assert_eq!(brief.handle_key(Key::Char('p'), false), BriefOutcome::Stay);
    assert_eq!(brief.mode_indicator(), " [PRACTICE MODE]");
    assert_eq!(brief.handle_key(Key::Char('h'), false), BriefOutcome::Stay);
    assert!(!brief.show_hints);
    assert_eq!(brief.handle_key(Key::Char('h'), true), BriefOutcome::Stay);
    assert!(brief.shows_hints(true));
    assert!(!brief.shows_hints(false));
    assert_eq!(
        brief.handle_key(Key::Enter, true),
        BriefOutcome::Start(ChallengeMode { practice_mode: true })
    );
    assert_eq!(brief.handle_key(Key::Char('p'), true), BriefOutcome::Stay);
    assert_eq!(
        brief.handle_key(Key::Enter, true),
        BriefOutcome::Start(ChallengeMode { practice_mode: false })
    );
    assert_eq!(brief.handle_key(Key::Esc, true), BriefOutcome::Leave);
    assert_eq!(brief.handle_key(Key::Char('q'), true), BriefOutcome::Leave);
    assert_eq!(brief.handle_key(Key::Up, true), BriefOutcome::Stay);
    assert_eq!(brief, ChallengeScreen { practice_mode: false, show_hints: true });
}

fn challenge(id: &str, tags: &[&str]) -> Challenge {
    Challenge::new(id, id, "description", "from", "to", "hint")
        .with_tags(tags.iter().map(|t| t.to_string()).collect())
}

fn challenges() -> Vec<Challenge> {
    vec![
        challenge("a", &["motion", "delete"]),
        challenge("b", &[]),
        challenge("c", &["yank", "motion"]),
        challenge("d", &["Delete"]),
    ]
}

#[test]
fn tags_are_listed_once_and_in_order() {
    let tags = ChallengeListScreen::extract_all_tags(&challenges());
    assert_eq!(tags, vec!["Delete", "delete", "motion", "yank"]);
    assert!(ChallengeListScreen::extract_all_tags(&vec![]).is_empty());
    let screen = ChallengeListScreen::new(challenges());
    assert_eq!(screen.available_tags(), &tags);
    assert_eq!(screen.filtered_challenges(), &vec![0, 1, 2, 3]);
    assert_eq!(screen.selected_index(), 0);
    assert_eq!(screen.filter_mode(), FilterMode::All);
    assert_eq!(screen.display_mode(), DisplayMode::List);
    assert!(screen.progress().is_none());
    assert_eq!(screen.all_challenges().len(), 4);
}

#[test]
fn the_list_filters_by_completion() {
    let at = Timestamp::new(1000, 0);
    let mut progress = Progress::new();
    progress.record_attempt("a".to_string(), true, Duration::from_secs(5), None, at);
    progress.record_attempt("c".to_string(), false, Duration::from_secs(5), None, at);
    // Without progress nothing counts as completed.
    let mut bare = ChallengeListScreen::new(challenges());
    assert_eq!(bare.handle_key(Key::Char('c'), 0), ListOutcome::Stay);
    assert!(bare.filtered_challenges().is_empty());
    assert_eq!(bare.handle_key(Key::Enter, 0), ListOutcome::Stay);
    assert_eq!(bare.handle_key(Key::Char('r'), 0), ListOutcome::Leave);
    assert_eq!(bare.get_random_challenge(3).map(|c| c.id().to_string()), None);
    assert_eq!(bare.handle_key(Key::Char('i'), 0), ListOutcome::Stay);
    assert_eq!(bare.filtered_challenges(), &vec![0, 1, 2, 3]);

    let mut screen = ChallengeListScreen::new(challenges()).with_progress(progress);
    assert_eq!(screen.handle_key(Key::Down, 0), ListOutcome::Stay);
    assert_eq!(screen.handle_key(Key::Char('j'), 0), ListOutcome::Stay);
    assert_eq!(screen.handle_key(Key::Down, 0), ListOutcome::Stay);
    assert_eq!(screen.handle_key(Key::Down, 0), ListOutcome::Stay);
    assert_eq!(screen.selected_index(), 3);
    assert_eq!(screen.handle_key(Key::Enter, 0), ListOutcome::Chosen(3));
    assert_eq!(screen.handle_key(Key::Up, 0), ListOutcome::Stay);
    // Three challenges are left: the selection stays where it is.
    assert_eq!(screen.handle_key(Key::Char('i'), 0), ListOutcome::Stay);
    assert_eq!(screen.filtered_challenges(), &vec![1, 2, 3]);
    assert_eq!(screen.selected_index(), 2);
    assert_eq!(screen.handle_key(Key::Enter, 0), ListOutcome::Chosen(3));
    // One challenge is left: the selection has fallen off and goes to the top.
    assert_eq!(screen.handle_key(Key::Char('c'), 0), ListOutcome::Stay);
    assert_eq!(screen.filter_mode(), FilterMode::Completed);
    assert_eq!(screen.filtered_challenges(), &vec![0]);
    assert_eq!(screen.selected_index(), 0);
    assert_eq!(screen.handle_key(Key::Enter, 0), ListOutcome::Chosen(0));
    assert_eq!(screen.handle_key(Key::Down, 0), ListOutcome::Stay);
    assert_eq!(screen.selected_index(), 0);
    assert_eq!(screen.handle_key(Key::Char('a'), 0), ListOutcome::Stay);
    assert_eq!(screen.filtered_challenges(), &vec![0, 1, 2, 3]);
    assert_eq!(screen.handle_key(Key::Char('r'), 6), ListOutcome::Chosen(2));
    assert_eq!(screen.get_random_challenge(7).map(|c| c.id().to_string()), Some("d".to_string()));
    assert_eq!(screen.handle_key(Key::Up, 0), ListOutcome::Stay);
    assert_eq!(screen.handle_key(Key::Char('z'), 0), ListOutcome::Stay);
    assert_eq!(screen.handle_key(Key::Char('q'), 0), ListOutcome::Leave);
    assert_eq!(screen.handle_key(Key::Esc, 0), ListOutcome::Leave);
}

#[test]
fn the_list_filters_by_tags() {
    let mut screen = ChallengeListScreen::new(challenges());
    assert_eq!(screen.handle_key(Key::Char('f'), 0), ListOutcome::Stay);
    assert_eq!(screen.display_mode(), DisplayMode::FilterPanel);
    // In the panel no key leaves or chooses.
    assert_eq!(screen.handle_key(Key::Char('r'), 0), ListOutcome::Stay);
    assert_eq!(screen.handle_key(Key::Up, 0), ListOutcome::Stay);
    assert_eq!(screen.filter_panel_selected(), 0);
    // "Delete"
    assert_eq!(screen.handle_key(Key::Enter, 0), ListOutcome::Stay);
    assert_eq!(screen.tag_filters(), &vec!["Delete".to_string()]);
    assert_eq!(screen.filtered_challenges(), &vec![3]);
    // "motion" as well
    assert_eq!(screen.handle_key(Key::Down, 0), ListOutcome::Stay);
    assert_eq!(screen.handle_key(Key::Char('j'), 0), ListOutcome::Stay);
    assert_eq!(screen.handle_key(Key::Char(' '), 0), ListOutcome::Stay);
    assert_eq!(screen.tag_filters(), &vec!["Delete".to_string(), "motion".to_string()]);
    assert_eq!(screen.filtered_challenges(), &vec![0, 2, 3]);
    // "Delete" off again
    assert_eq!(screen.handle_key(Key::Char('k'), 0), ListOutcome::Stay);
    assert_eq!(screen.handle_key(Key::Up, 0), ListOutcome::Stay);
    assert_eq!(screen.handle_key(Key::Enter, 0), ListOutcome::Stay);
    assert_eq!(screen.tag_filters(), &vec!["motion".to_string()]);
    assert_eq!(screen.filtered_challenges(), &vec![0, 2]);
    for _ in 0..9 {
        assert_eq!(screen.handle_key(Key::Down, 0), ListOutcome::Stay);
    }
    assert_eq!(screen.filter_panel_selected(), 3);
    assert_eq!(screen.handle_key(Key::Char('x'), 0), ListOutcome::Stay);
    assert!(screen.tag_filters().is_empty());
    assert_eq!(screen.filtered_challenges(), &vec![0, 1, 2, 3]);
    assert_eq!(screen.handle_key(Key::Esc, 0), ListOutcome::Stay);
    assert_eq!(screen.display_mode(), DisplayMode::List);
    assert_eq!(screen.handle_key(Key::Char('f'), 0), ListOutcome::Stay);
    assert_eq!(screen.handle_key(Key::Char('q'), 0), ListOutcome::Stay);
    assert_eq!(screen.display_mode(), DisplayMode::List);
    // No tags at all: nothing to switch.
    let mut plain = ChallengeListScreen::new(vec![challenge("b", &[])]);
    plain.handle_key(Key::Char('f'), 0);
    assert_eq!(plain.handle_key(Key::Enter, 0), ListOutcome::Stay);
    assert_eq!(plain.handle_key(Key::Down, 0), ListOutcome::Stay);
    assert!(plain.tag_filters().is_empty());
    assert_eq!(plain.filtered_challenges(), &vec![0]);
}

#[test]
fn the_steps_of_a_run() {
    let validator = SolutionValidator::new();
    let target = "Hello world";
    assert_eq!(decide_step(&validator, &RunEvent::EditorExited, target), RunStep::Finish { completed: false });
    assert_eq!(decide_step(&validator, &RunEvent::Nothing, target), RunStep::KeepWaiting);
    assert_eq!(
        decide_step(&validator, &RunEvent::FileChanged("Hello REMOVE world".to_string()), target),
        RunStep::KeepWaiting
    );
    assert_eq!(
        decide_step(&validator, &RunEvent::FileChanged("  Hello world \n\n".to_string()), target),
        RunStep::Finish { completed: true }
    );
    let recording = Recording::new("/tmp/x.cast".to_string(), KeySequence::new(vec!["w".to_string()]));
    let done = build_solution(true, Duration::from_secs(7), Some(recording));
    assert!(done.is_completed());
    assert_eq!(done.elapsed_seconds(), 7);
    assert_eq!(done.elapsed_time(), Duration::from_secs(7));
    assert_eq!(done.recording().map(|r| r.keystroke_count()), Some(1));
    let failed = build_solution(false, Duration::from_secs(9), None);
    assert!(!failed.is_completed());
    assert!(failed.recording().is_none());
    assert!(failed.clone().recording().is_none());
}

fn definition(helix: Option<&str>, generic: Option<&str>) -> ChallengeDefinition {
    ChallengeDefinition {
        id: "delete-word".to_string(),
        title: "Delete a word".to_string(),
        description: "Remove the word REMOVE".to_string(),
        difficulty: Some("beginner".to_string()),
        tags: vec!["delete".to_string()],
        generic_hint: generic.map(|h| h.to_string()),
        helix_hint: helix.map(|h| h.to_string()),
        starting: "Hello REMOVE world".to_string(),
        target: "Hello world".to_string(),
    }
}

#[test]
fn challenges_from_their_definitions() {
    let challenge = definition(Some("wd"), Some("delete it")).into_domain();
    assert_eq!(challenge.id(), "delete-word");
    assert_eq!(challenge.title(), "Delete a word");
    assert_eq!(challenge.description(), "Remove the word REMOVE");
    assert_eq!(challenge.starting_content(), "Hello REMOVE world");
    assert_eq!(challenge.target_content(), "Hello world");
    assert_eq!(challenge.hint(), "wd");
    assert_eq!(challenge.difficulty(), Some("beginner"));
    assert_eq!(challenge.tags(), &["delete".to_string()]);
    assert!(!challenge.has_progressive_hints());
    assert_eq!(challenge.optimal_solution(), None);
    assert_eq!(challenge.optimal_keystrokes(), None);
    assert_eq!(definition(None, Some("delete it")).into_domain().hint(), "delete it");
    assert_eq!(definition(None, None).into_domain().hint(), "No hint available");
    let mut bare = definition(None, None);
    bare.difficulty = None;
    bare.tags = vec![];
    let challenge = bare.into_domain();
    assert_eq!(challenge.difficulty(), None);
    assert!(challenge.tags().is_empty());
    assert_eq!(TomlChallengeLoader::new("challenges/helix").challenges_dir(), "challenges/helix");
}

#[test]
fn challenges_are_built_up() {
    let challenge = Challenge::new("id", "title", "description", "from", "to", "hint")
        .with_difficulty("hard")
        .with_progressive_hints(vec!["one".to_string(), "two".to_string()])
        .with_optimal_solution("dw", 2);
    assert_eq!(challenge.difficulty(), Some("hard"));
    assert!(challenge.has_progressive_hints());
    assert_eq!(challenge.progressive_hints().len(), 2);
    assert_eq!(challenge.optimal_solution(), Some("dw"));
    assert_eq!(challenge.optimal_keystrokes(), Some(2));
    let copy = challenge.clone();
    assert_eq!(copy.id(), "id");
    assert_eq!(copy.progressive_hints(), challenge.progressive_hints());
}
