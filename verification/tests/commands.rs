use perceive::app_state::AsyncBuilderError;
use perceive::app_state::LoadState;
use perceive::cmd::check_command;
use perceive::cmd::find_source;
use perceive::cmd::new_source;
use perceive::cmd::scan_strategy;
use perceive::cmd::search_query;
use perceive::cmd::search_sources;
use perceive::cmd::CommandError;
use perceive::cmd::Commands;
use perceive::cmd::EditSourceArgs;
use perceive::cmd::HideArgs;
use perceive::cmd::ModelArgs;
use perceive::cmd::ModelCommand;
use perceive::cmd::PrintArgs;
use perceive::cmd::ScanSourceArgs;
use perceive::cmd::SearchArgs;
use perceive::cmd::SearchQuery;
use perceive::cmd::SetArgs;
use perceive::cmd::SourceArgs;
use perceive::cmd::SourceCommand;
use perceive::model::SentenceEmbeddingsModelType;
use perceive::sources::ChromiumBookmarksConfig;
use perceive::sources::ChromiumHistoryConfig;
use perceive::sources::FsSourceConfig;
use perceive::sources::ItemCompareStrategy;
use perceive::sources::Source;
use perceive::sources::SourceConfig;
use perceive::sources::SourceStatus;
use perceive::sources::SourceTypeTag;

fn commands_sources() -> Vec<Source> {
    vec![
        new_source(
            "docs".to_string(),
            "/tmp/d".to_string(),
            SourceConfig::Fs(FsSourceConfig { globs: vec![] }),
            10,
        ),
        new_source(
            "history".to_string(),
            "/browser".to_string(),
            SourceConfig::ChromiumHistory(ChromiumHistoryConfig { skip: vec![] }),
            10,
        ),
        new_source(
            "bookmarks".to_string(),
            "/browser".to_string(),
            SourceConfig::ChromiumBookmarks(ChromiumBookmarksConfig { skip: vec![] }),
            10,
        ),
    ]
    .into_iter()
    .enumerate()
    .map(|(i, mut s)| {
        s.id = 10 + i as i64;
        s
    })
    .collect()
}

fn commands_search(source: Option<&str>, source_type: Option<SourceTypeTag>) -> SearchArgs {
    SearchArgs {
        query: Some("query".to_string()),
        like: None,
        source: source.map(|s| s.to_string()),
        source_type,
        num_results: 20,
    }
}

#[test]
fn a_new_source_is_not_yet_scanned() {
    let source = new_source(
        "docs".to_string(),
        "/tmp/d".to_string(),
        SourceConfig::Fs(FsSourceConfig { globs: vec!["*.md".to_string()] }),
        77,
    );
    assert_eq!(
        source,
        Source {
            id: 0,
            name: "docs".to_string(),
            config: SourceConfig::Fs(FsSourceConfig { globs: vec!["*.md".to_string()] }),
            location: "/tmp/d".to_string(),
            compare_strategy: ItemCompareStrategy::MTimeAndContent,
            status: SourceStatus::Indexing { started_at: 77 },
            last_indexed: 77,
            index_version: 0,
        }
    );
}

#[test]
fn sources_are_found_by_name() {
    let sources = commands_sources();
    assert_eq!(find_source(&sources, "docs"), Ok(0));
    assert_eq!(find_source(&sources, "bookmarks"), Ok(2));
    assert_eq!(find_source(&sources, "Docs"), Err(CommandError::SourceNotFound));
    assert_eq!(find_source(&vec![], "docs"), Err(CommandError::SourceNotFound));
}

#[test]
fn a_search_looks_in_the_named_source_or_by_type_or_everywhere() {
    let sources = commands_sources();
    assert_eq!(search_sources(&sources, &commands_search(Some("history"), None)), Ok(vec![11]));
    assert_eq!(
        search_sources(&sources, &commands_search(Some("history"), Some(SourceTypeTag::Local))),
        Ok(vec![11])
    );
    assert_eq!(
        search_sources(&sources, &commands_search(Some("nothing"), None)),
        Err(CommandError::SourceNotFound)
    );
    assert_eq!(
        search_sources(&sources, &commands_search(None, Some(SourceTypeTag::Web))),
        Ok(vec![11, 12])
    );
    assert_eq!(
        search_sources(&sources, &commands_search(None, Some(SourceTypeTag::Local))),
        Ok(vec![10])
    );
    assert_eq!(
        search_sources(&sources, &commands_search(None, Some(SourceTypeTag::Bookmarks))),
        Ok(vec![12])
    );
    assert_eq!(search_sources(&sources, &commands_search(None, None)), Ok(vec![10, 11, 12]));
}

#[test]
fn a_search_needs_a_query_or_an_item() {
    assert_eq!(
        search_query(Some("q".to_string()), None),
        Ok(SearchQuery::Text("q".to_string()))
    );
    assert_eq!(
        search_query(Some("q".to_string()), Some(3)),
        Ok(SearchQuery::Text("q".to_string()))
    );
    assert_eq!(search_query(None, Some(3)), Ok(SearchQuery::Like(3)));
    assert_eq!(search_query(None, None), Err(CommandError::NoQuery));
}

#[test]
fn flags_of_a_scan_choose_the_strategy() {
    let args = |by_content, force| ScanSourceArgs { name: "docs".to_string(), by_content, force };
    assert_eq!(scan_strategy(&args(false, false)), None);
    assert_eq!(scan_strategy(&args(true, false)), Some(ItemCompareStrategy::Content));
    assert_eq!(scan_strategy(&args(false, true)), Some(ItemCompareStrategy::Force));
    assert_eq!(scan_strategy(&args(true, true)), Some(ItemCompareStrategy::Force));
}

#[test]
fn some_commands_do_nothing_yet() {
    assert_eq!(check_command(&Commands::Refresh), Err(CommandError::NotImplemented));
    assert_eq!(
        check_command(&Commands::Model(ModelArgs {
            command: ModelCommand::Choose(SetArgs { model: SentenceEmbeddingsModelType::AllMiniLmL6V2 })
        })),
        Err(CommandError::NotImplemented)
    );
    assert_eq!(
        check_command(&Commands::Source(SourceArgs {
            command: SourceCommand::Edit(EditSourceArgs { name: "docs".to_string() })
        })),
        Err(CommandError::NotImplemented)
    );
    assert_eq!(
        check_command(&Commands::Source(SourceArgs {
            command: SourceCommand::Scan(ScanSourceArgs {
                name: "docs".to_string(),
                by_content: false,
                force: false
            })
        })),
        Ok(())
    );
    assert_eq!(check_command(&Commands::Search(commands_search(None, None))), Ok(()));
    assert_eq!(check_command(&Commands::Print(PrintArgs { id: 1, raw: false })), Ok(()));
    assert_eq!(check_command(&Commands::Hide(HideArgs { id: 1, unhide: false })), Ok(()));
}

#[test]
fn command_errors_have_messages() {
    assert_eq!(CommandError::NotImplemented.to_string(), "Not implemented yet");
    assert_eq!(CommandError::SourceNotFound.to_string(), "Source not found");
    assert_eq!(CommandError::NoQuery.to_string(), "No query provided");
    assert_eq!(AsyncBuilderError::NotLoaded.to_string(), "Still loading");
}

#[test]
fn loading_ends_loaded_or_with_the_first_failure() {
    assert_eq!(LoadState::from_results(Ok(()), Ok(())), LoadState::Loaded);
    assert_eq!(
        LoadState::from_results(Err("model".to_string()), Ok(())),
        LoadState::Error { error: "model".to_string() }
    );
    assert_eq!(
        LoadState::from_results(Err("model".to_string()), Err("searcher".to_string())),
        LoadState::Error { error: "model".to_string() }
    );
    assert_eq!(
        LoadState::from_results(Ok(()), Err("searcher".to_string())),
        LoadState::Error { error: "searcher".to_string() }
    );
}
