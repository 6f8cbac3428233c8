use std::str::FromStr;

use mega::command::{
    git_upload_pack_command, handle_input_command, handle_kad_command, handle_mega_command,
    InputCommand, KadCommand, MegaCommand,
};
use mega::peer::{parse_mega_address, parse_peer_id};

const PEER: &str = "12D3KooWFgpUQa9WnTztcvs5LLMJmwsMoGZcrTHdt9LKYKpM4MiK";

fn words(v: &[&str]) -> Vec<String> {
    v.iter().map(|s| s.to_string()).collect()
}

fn peer_bytes() -> Vec<u8> {
    libp2p_identity::PeerId::from_str(PEER).unwrap().to_bytes()
}

fn kad_message(c: KadCommand) -> String {
    match c {
        KadCommand::Rejected { message } => message,
        _ => panic!("expected a rejection"),
    }
}

fn mega_message(c: MegaCommand) -> String {
    match c {
        MegaCommand::Rejected { message } => message,
        _ => panic!("expected a rejection"),
    }
}

#[test]
fn blank_lines_do_nothing() {
    assert!(matches!(handle_input_command(""), InputCommand::Empty));
    assert!(matches!(handle_input_command("   \t \n"), InputCommand::Empty));
    assert!(matches!(handle_input_command("\u{3000}\u{a0}"), InputCommand::Empty));
}

#[test]
fn unknown_command_is_reported() {
    match handle_input_command("  hello world ") {
        InputCommand::Rejected { message } => assert_eq!(message, "expected command: kad, mega"),
        _ => panic!("expected a rejection"),
    }
}

#[test]
fn kad_line_is_dispatched_with_its_arguments() {
    match handle_input_command("  kad   put  key1 \t value1  ") {
        InputCommand::Kad { kad: KadCommand::PutRecord { key, value } } => {
            assert_eq!(key, b"key1".to_vec());
            assert_eq!(value, b"value1".to_vec());
        }
        _ => panic!("expected a put"),
    }
}

#[test]
fn mega_line_is_dispatched_with_its_arguments() {
    match handle_input_command("mega provide abc.git") {
        InputCommand::Mega { mega: MegaCommand::Provide { repo_name } } => {
            assert_eq!(repo_name, "abc")
        }
        _ => panic!("expected provide"),
    }
}

#[test]
fn kad_get_takes_the_key_bytes() {
    match handle_kad_command(&words(&["get", "ключ"])) {
        KadCommand::GetRecord { key } => assert_eq!(key, "ключ".as_bytes().to_vec()),
        _ => panic!("expected a get"),
    }
}

#[test]
fn kad_missing_arguments_are_reported() {
    assert_eq!(kad_message(handle_kad_command(&words(&["get"]))), "Expected key");
    assert_eq!(kad_message(handle_kad_command(&words(&["put"]))), "Expected key");
    assert_eq!(kad_message(handle_kad_command(&words(&["put", "k"]))), "Expected value");
    assert_eq!(kad_message(handle_kad_command(&words(&["get_peer"]))), "Expected peer_id");
    assert_eq!(
        kad_message(handle_kad_command(&words(&[]))),
        "expected command: get, put, k_buckets, get_peer"
    );
    assert_eq!(
        kad_message(handle_kad_command(&words(&["other"]))),
        "expected command: get, put, k_buckets, get_peer"
    );
}

#[test]
fn kad_k_buckets() {
    assert!(matches!(handle_kad_command(&words(&["k_buckets", "x"])), KadCommand::ListKBuckets));
}

#[test]
fn kad_get_peer_parses_the_peer_id() {
    match handle_kad_command(&words(&["get_peer", PEER])) {
        KadCommand::GetClosestPeers { peer } => {
            assert_eq!(peer.bytes, peer_bytes());
            assert_ne!(peer.bytes, PEER.as_bytes().to_vec());
        }
        _ => panic!("expected a closest-peers query"),
    }
}

#[test]
fn kad_get_peer_reports_a_bad_peer_id() {
    let message = kad_message(handle_kad_command(&words(&["get_peer", "not-a-peer"])));
    let err = libp2p_identity::PeerId::from_str("not-a-peer").unwrap_err();
    assert_eq!(message, format!("peer_id parse error:{}", err));
}

#[test]
fn parse_peer_id_without_text() {
    assert_eq!(parse_peer_id(None).unwrap_err(), "Expected peer_id");
    assert_eq!(parse_peer_id(Some(PEER)).unwrap().bytes, peer_bytes());
}

#[test]
fn mega_provide_needs_a_git_name() {
    assert_eq!(mega_message(handle_mega_command(&words(&["provide"]))), "Expected repo_name");
    assert_eq!(
        mega_message(handle_mega_command(&words(&["provide", "abc"]))),
        "repo_name should end with .git"
    );
    assert_eq!(
        mega_message(handle_mega_command(&words(&["provide", "git"]))),
        "repo_name should end with .git"
    );
    match handle_mega_command(&words(&["provide", ".git"])) {
        MegaCommand::Provide { repo_name } => assert_eq!(repo_name, ""),
        _ => panic!("expected provide"),
    }
}

#[test]
fn mega_clone_takes_peer_and_repo() {
    let address = format!("p2p://{}/abc.git", PEER);
    match handle_mega_command(&words(&["clone", &address])) {
        MegaCommand::Clone { peer, repo_name } => {
            assert_eq!(peer.bytes, peer_bytes());
            assert_eq!(repo_name, "abc.git");
        }
        _ => panic!("expected clone"),
    }
}

#[test]
fn mega_clone_reports_bad_addresses() {
    assert_eq!(mega_message(handle_mega_command(&words(&["clone"]))), "Expected mega_address");
    assert_eq!(
        mega_message(handle_mega_command(&words(&["clone", "p2p://abc"]))),
        "mega_address invalid"
    );
    let err = libp2p_identity::PeerId::from_str("zzz").unwrap_err();
    assert_eq!(
        mega_message(handle_mega_command(&words(&["clone", "p2p://zzz/abc.git"]))),
        err.to_string()
    );
    assert_eq!(
        mega_message(handle_mega_command(&words(&["fetch"]))),
        "expected command: clone, provide"
    );
}

#[test]
fn mega_address_pieces() {
    let (peer, repo) = parse_mega_address(&format!("p2p://{}/abc.git/more", PEER)).unwrap();
    assert_eq!(peer.bytes, peer_bytes());
    assert_eq!(repo, "abc.git");
    assert_eq!(parse_mega_address("a/b/c").unwrap_err(), "mega_address invalid");
}

#[test]
fn upload_pack_request_text() {
    assert_eq!(git_upload_pack_command("/root/repotest/src.git"), "git-upload-pack /root/repotest/src.git");
}
