use autochannel::commands::add_channel_permission_command;
use autochannel::commands::change_nickname_command;
use autochannel::commands::create_channel_command;
use autochannel::commands::get_database_id_command;
use autochannel::commands::keepalive_command;
use autochannel::commands::login_command;
use autochannel::commands::move_client_command;
use autochannel::commands::select_server_command;
use autochannel::commands::send_text_message_command;
use autochannel::commands::set_client_channel_group_command;
use autochannel::escape::escape;
use autochannel::escape::unescape;
use autochannel::numfmt::i64_to_string;
use autochannel::numfmt::parse_i64;
use autochannel::rows::client_from_query;
use autochannel::rows::client_info_from_query;
use autochannel::rows::create_channel_from_query;
use autochannel::rows::database_id_from_query;
use autochannel::rows::find_value;
use autochannel::rows::parse_channels;
use autochannel::rows::parse_clients;
use autochannel::rows::server_info_from_query;
use autochannel::rows::whoami_from_query;
use autochannel::status::decode_status;
use autochannel::status::parse_status_line;
use autochannel::status::response_complete;
use autochannel::status::QueryError;

#[test]
fn escape_replaces_backslash_space_slash() {
    assert_eq!(escape("a\\b c/d"), "a\\\\b\\sc\\/d");
    assert_eq!(escape(""), "");
    assert_eq!(escape("plain"), "plain");
}

#[test]
fn escape_round_trips() {
    for s in ["", "\\", " ", "/", "\\ /", "a b\\c/d", "\\\\//  ", "nested \\s literal"] {
        let escaped = escape(s);
        assert_eq!(unescape(&escaped).as_deref(), Some(s));
    }
}

#[test]
fn unescape_rejects_bad_sequences() {
    assert_eq!(unescape("trailing\\"), None);
    assert_eq!(unescape("bad\\x"), None);
    assert_eq!(unescape("a\\sb"), Some("a b".to_string()));
    assert_eq!(unescape("a\\/b"), Some("a/b".to_string()));
    assert_eq!(unescape("a\\\\b"), Some("a\\b".to_string()));
}

#[test]
fn decimal_rendering() {
    assert_eq!(i64_to_string(0), "0");
    assert_eq!(i64_to_string(42), "42");
    assert_eq!(i64_to_string(-5), "-5");
    assert_eq!(i64_to_string(i64::MAX), "9223372036854775807");
    assert_eq!(i64_to_string(i64::MIN), "-9223372036854775808");
}

#[test]
fn decimal_parsing() {
    assert_eq!(parse_i64("0"), Some(0));
    assert_eq!(parse_i64("123"), Some(123));
    assert_eq!(parse_i64("-123"), Some(-123));
    assert_eq!(parse_i64("9223372036854775807"), Some(i64::MAX));
    assert_eq!(parse_i64("-9223372036854775808"), Some(i64::MIN));
    assert_eq!(parse_i64("9223372036854775808"), None);
    assert_eq!(parse_i64("-9223372036854775809"), None);
    assert_eq!(parse_i64("92233720368547758070"), None);
    assert_eq!(parse_i64(""), None);
    assert_eq!(parse_i64("-"), None);
    assert_eq!(parse_i64("12a"), None);
    assert_eq!(parse_i64("007"), Some(7));
}

#[test]
fn status_line_parses() {
    let st = parse_status_line("error id=0 msg=ok").expect("well-formed status");
    assert_eq!(st.id, 0);
    assert_eq!(st.msg, "ok");
    let st = parse_status_line("error id=771 msg=channel\\sname\\sis\\salready\\sin\\suse")
        .expect("well-formed status");
    assert_eq!(st.id, 771);
    assert!(parse_status_line("error id=x msg=ok").is_none());
    assert!(parse_status_line("error msg=ok").is_none());
    assert!(parse_status_line("data row").is_none());
}

#[test]
fn decode_success_returns_body() {
    let body = decode_status("clid=1|clid=2\n\rerror id=0 msg=ok\n\r").expect("code 0 is success");
    assert_eq!(body, "clid=1|clid=2");
}

#[test]
fn decode_success_without_data_is_empty_body() {
    let body = decode_status("error id=0 msg=ok\n\r").expect("code 0 is success");
    assert_eq!(body, "");
}

#[test]
fn decode_nonzero_code_is_exactly_one_error_with_that_code() {
    let err = decode_status("error id=771 msg=exists\n\r").unwrap_err();
    match err {
        QueryError::Protocol { code, ref message } => {
            assert_eq!(code, 771);
            assert_eq!(message, "exists");
        }
        other => panic!("expected protocol error, got {other:?}"),
    }
    assert_eq!(err.code(), 771);
}

#[test]
fn decode_without_status_line_is_empty_response() {
    let err = decode_status("clid=1 cid=2").unwrap_err();
    assert!(matches!(err, QueryError::EmptyResponse));
    assert_eq!(err.code(), -1);
}

#[test]
fn decode_malformed_status_line() {
    let err = decode_status("error id=oops msg=bad\n\r").unwrap_err();
    assert!(matches!(err, QueryError::MalformedStatus));
}

#[test]
fn row_lookup_finds_first_binding() {
    let rec = "clid=5 cid=10 client_nickname=Alice flag";
    assert_eq!(find_value(rec, "clid").as_deref(), Some("5"));
    assert_eq!(find_value(rec, "client_nickname").as_deref(), Some("Alice"));
    assert_eq!(find_value(rec, "flag").as_deref(), Some(""));
    assert_eq!(find_value(rec, "missing"), None);
}

#[test]
fn client_record_parses_and_unescapes_nickname() {
    let c = client_from_query(
        "clid=5 cid=10 client_database_id=7 client_nickname=Bob\\sJr client_type=0",
    )
    .expect("all keys present");
    assert_eq!(c.client_id, 5);
    assert_eq!(c.channel_id, 10);
    assert_eq!(c.client_database_id, 7);
    assert_eq!(c.client_nickname, "Bob Jr");
    assert_eq!(c.client_type, 0);
    assert!(c.client_is_user());
}

#[test]
fn client_record_missing_key_is_field_error() {
    let err = client_from_query("clid=5 cid=10 client_nickname=A client_type=0").unwrap_err();
    assert!(matches!(err, QueryError::Field));
    let err = client_from_query("clid=5 cid=ten client_database_id=7 client_nickname=A client_type=0")
        .unwrap_err();
    assert!(matches!(err, QueryError::Field));
}

#[test]
fn client_listing_splits_records() {
    let body = "clid=1 cid=10 client_database_id=4 client_nickname=A client_type=0|clid=2 cid=11 client_database_id=5 client_nickname=B client_type=1";
    let v = parse_clients(body).expect("two well-formed records");
    assert_eq!(v.len(), 2);
    assert_eq!(v[0].client_id, 1);
    assert_eq!(v[1].client_nickname, "B");
    assert!(!v[1].client_is_user());
}

#[test]
fn empty_body_has_no_records() {
    let err = parse_clients("").unwrap_err();
    assert!(matches!(err, QueryError::NoData));
}

#[test]
fn channel_listing_parses() {
    let v = parse_channels("cid=1 pid=0|cid=2 pid=1").expect("two records");
    assert_eq!(v.len(), 2);
    assert_eq!(v[1].cid, 2);
    assert_eq!(v[1].pid, 1);
}

#[test]
fn single_record_types_parse() {
    let w = whoami_from_query("client_id=3 client_database_id=9").unwrap();
    assert_eq!(w.client_id, 3);
    assert_eq!(w.client_database_id, 9);
    let s = server_info_from_query("virtual_server_unique_identifier=abc\\/def x=1").unwrap();
    assert_eq!(s.virtual_server_unique_identifier, "abc/def");
    let c = create_channel_from_query("cid=77").unwrap();
    assert_eq!(c.cid(), 77);
    let d = database_id_from_query("cldbid=5 cluid=abc").unwrap();
    assert_eq!(d.client_database_id(), 5);
    let i = client_info_from_query("client_input_muted=1 cid=10").unwrap();
    assert!(i.is_client_muted());
    let i = client_info_from_query("client_input_muted=0").unwrap();
    assert!(!i.is_client_muted());
}

#[test]
fn command_builders_produce_exact_wire_lines() {
    assert_eq!(login_command("user", "pass"), "login user pass\n\r");
    assert_eq!(select_server_command(1), "use 1\n\r");
    assert_eq!(move_client_command(5, 77), "clientmove clid=5 cid=77\n\r");
    assert_eq!(
        set_client_channel_group_command(7, 77, 5),
        "setclientchannelgroup cgid=5 cid=77 cldbid=7\n\r"
    );
    assert_eq!(
        create_channel_command("Alice's channel", 10),
        "channelcreate channel_name=Alice's\\schannel cpid=10 channel_codec_quality=10\n\r"
    );
    assert_eq!(
        send_text_message_command(5, "you were moved"),
        "sendtextmessage targetmode=1 target=5 msg=you\\swere\\smoved\n\r"
    );
    assert_eq!(
        change_nickname_command("auto bot"),
        "clientupdate client_nickname=auto\\sbot\n\r"
    );
    assert_eq!(
        get_database_id_command("uid="),
        "clientgetdbidfromuid cluid=uid=\n\r"
    );
    assert_eq!(keepalive_command(), "whoami\n\rbanlist\n\r");
}

#[test]
fn permission_command_joins_items_with_pipe() {
    assert_eq!(
        add_channel_permission_command(42, &vec![(133, 75)]),
        "channeladdperm cid=42 permid=133 permvalue=75\n\r"
    );
    assert_eq!(
        add_channel_permission_command(42, &vec![(133, 75), (8, -1)]),
        "channeladdperm cid=42 permid=133 permvalue=75|permid=8 permvalue=-1\n\r"
    );
}

#[test]
fn framing_detects_complete_responses() {
    assert!(response_complete("anything", 10, 512));
    assert!(response_complete("data\n\rerror id=0 msg=ok\n\r", 512, 512));
    assert!(!response_complete("data without status", 512, 512));
    assert!(!response_complete("error id=0 msg=ok", 512, 512));
}
