use file_share::codec::{encode_frame, read_frame};
use file_share::command::{CommandType, ShareCommandBuilder};
use file_share::config::{Client, Config, ConfigError, Server};
use file_share::pool::{PoolError, WorkerPool, FALLBACK_THREAD_COUNT};
use file_share::share::{ExecuteAction, Location, PrepareAction, Share};

fn bare(kind: CommandType) -> Share {
    Share::new(
        ShareCommandBuilder::new().command_type(kind).build(),
        Location::Client,
    )
}

fn with_arg(kind: CommandType, arg: &str, location: Location) -> Share {
    Share::new(
        ShareCommandBuilder::new()
            .command_type(kind)
            .arg(arg.to_string())
            .build(),
        location,
    )
}

#[test]
fn prepare_follows_the_table() {
    let mut s = bare(CommandType::Exit);
    assert_eq!(s.prepare_action(), PrepareAction::Terminate);
    s.set_location(Location::Server);
    assert_eq!(s.prepare_action(), PrepareAction::Nothing);

    let mut s = bare(CommandType::Help);
    assert_eq!(s.prepare_action(), PrepareAction::ShowHelp);
    s.set_location(Location::Server);
    assert_eq!(s.prepare_action(), PrepareAction::ShowHelp);

    let mut s = with_arg(CommandType::Upload, "f", Location::Client);
    assert_eq!(s.prepare_action(), PrepareAction::LoadLocalFile);
    s.set_location(Location::Server);
    assert_eq!(s.prepare_action(), PrepareAction::Nothing);

    assert_eq!(with_arg(CommandType::Receive, "f", Location::Client).prepare_action(), PrepareAction::Nothing);
    assert_eq!(bare(CommandType::Catalog).prepare_action(), PrepareAction::Nothing);
}

#[test]
fn execute_follows_the_table() {
    assert_eq!(with_arg(CommandType::Receive, "f", Location::Client).execute_action(), ExecuteAction::WriteLocalFile);
    assert_eq!(with_arg(CommandType::Receive, "f", Location::Server).execute_action(), ExecuteAction::LoadLocalFile);
    assert_eq!(with_arg(CommandType::Upload, "f", Location::Server).execute_action(), ExecuteAction::WriteLocalFile);
    assert_eq!(with_arg(CommandType::Upload, "f", Location::Client).execute_action(), ExecuteAction::Nothing);

    let mut catalog = bare(CommandType::Catalog);
    assert_eq!(catalog.execute_action(), ExecuteAction::Nothing);
    catalog.set_location(Location::Server);
    assert_eq!(catalog.execute_action(), ExecuteAction::ListCatalog);

    assert_eq!(bare(CommandType::Exit).execute_action(), ExecuteAction::Nothing);
    assert_eq!(bare(CommandType::Help).execute_action(), ExecuteAction::Nothing);
}

#[test]
fn error_response_suppresses_every_execution() {
    for kind in [
        CommandType::Exit,
        CommandType::Help,
        CommandType::Upload,
        CommandType::Receive,
        CommandType::Catalog,
    ] {
        for location in [Location::Client, Location::Server] {
            let mut s = with_arg(kind, "f", location);
            s.set_error_response("refused".to_string());
            assert_eq!(s.execute_action(), ExecuteAction::Nothing);
        }
    }
}

#[test]
fn set_error_response_keeps_the_file() {
    let mut s = with_arg(CommandType::Upload, "f", Location::Server);
    s.set_file(vec![1, 2, 3]);
    s.set_error_response("disk full".to_string());
    assert_eq!(s.file.as_deref(), Some(&[1u8, 2, 3][..]));
    assert_eq!(s.server_response.text.as_deref(), Some("disk full"));
}

#[test]
fn catalog_text_joins_entries_with_newlines() {
    let mut s = bare(CommandType::Catalog);
    s.set_location(Location::Server);
    s.set_file(vec![9]);
    let entries = vec!["a.txt".to_string(), "b.txt".to_string()];
    s.set_catalog(&entries);
    assert_eq!(s.text_data.as_deref(), Some("a.txt\nb.txt\n"));
    // The file payload does not change.
    assert_eq!(s.file.as_deref(), Some(&[9u8][..]));
}

#[test]
fn catalog_of_nothing_is_empty() {
    let mut s = bare(CommandType::Catalog);
    s.set_catalog(&Vec::new());
    assert_eq!(s.text_data.as_deref(), Some(""));
}

#[test]
fn upload_pipeline_delivers_the_same_bytes() {
    // Client side: stage the local file's bytes.
    let mut share = with_arg(CommandType::Upload, "foo.txt", Location::Client);
    assert_eq!(share.prepare_action(), PrepareAction::LoadLocalFile);
    share.set_file(b"the client's foo.txt".to_vec());

    // Across the wire to the server.
    let frame = encode_frame(&share);
    let (server_share, _) = read_frame(&frame, Location::Server).unwrap();

    // Server side: the very bytes are written to the named path.
    assert_eq!(server_share.execute_action(), ExecuteAction::WriteLocalFile);
    assert_eq!(server_share.command.arg.as_deref(), Some("foo.txt"));
    assert_eq!(server_share.file.as_deref(), Some(&b"the client's foo.txt"[..]));
}

#[test]
fn receive_pipeline_delivers_the_same_bytes() {
    // Server side: the command asks it to load the local file.
    let mut share = with_arg(CommandType::Receive, "foo.txt", Location::Server);
    assert_eq!(share.execute_action(), ExecuteAction::LoadLocalFile);
    share.set_file(b"the server's foo.txt".to_vec());

    // The reply crosses the wire back to the client.
    let frame = encode_frame(&share);
    let (client_share, _) = read_frame(&frame, Location::Client).unwrap();

    // Client side: the very bytes are written locally.
    assert_eq!(client_share.execute_action(), ExecuteAction::WriteLocalFile);
    assert_eq!(client_share.command.arg.as_deref(), Some("foo.txt"));
    assert_eq!(client_share.file.as_deref(), Some(&b"the server's foo.txt"[..]));
}

#[test]
fn pool_of_zero_workers_fails() {
    assert_eq!(WorkerPool::build(0), Err(PoolError));
}

#[test]
fn pool_of_four_workers_builds() {
    let pool = WorkerPool::build(4).unwrap();
    assert_eq!(pool.thread_count, 4);
}

#[test]
fn invalid_pool_size_falls_back() {
    let (pool, fell_back) = WorkerPool::build_or_fallback(0);
    assert!(fell_back);
    assert_eq!(pool.thread_count, FALLBACK_THREAD_COUNT);
    let (pool, fell_back) = WorkerPool::build_or_fallback(8);
    assert!(!fell_back);
    assert_eq!(pool.thread_count, 8);
}

#[test]
fn config_sections_are_handed_out() {
    let config = Config {
        server: Some(Server {
            thread_count: 6,
            ips: vec!["127.0.0.1:7878".to_string(), "127.0.0.1:7879".to_string()],
            max_share_size_without_file: None,
            max_file_size: None,
            return_on_success: None,
            return_on_help: None,
        }),
        client: None,
    };
    let server = config.server().unwrap();
    assert_eq!(server.thread_count(), 6);
    assert_eq!(server.ip(), "127.0.0.1:7878");
    assert_eq!(server.ip_backups().len(), 2);

    let config = Config { server: None, client: None };
    assert_eq!(config.client().map(|_| ()), Err(ConfigError::MissingClient));
    let config = Config { server: None, client: None };
    assert_eq!(config.server().map(|_| ()), Err(ConfigError::MissingServer));
}

#[test]
fn client_retry_policy() {
    let client = Client {
        server: "127.0.0.1:7878".to_string(),
        retry_delay: 1000,
        retry_amount: 10,
    };
    assert_eq!(client.server(), "127.0.0.1:7878");
    assert_eq!(client.retry_delay(), 1000);
    // Retries after the first attempt: one fewer than the attempts.
    assert_eq!(client.retry_amount(), 9);
}
