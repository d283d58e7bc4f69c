//! Typed row parsing.
//!
//! A successful result body's first data line is split on `|` into records;
//! each record is split on spaces into `key=value` tokens. Each record type
//! names the keys it needs and how their values are coerced: integers parse
//! as decimals, flags as nonzero integers, and free text through the escape
//! inverse. Unknown keys are ignored; a missing or malformed required key is
//! an error.

use crate::escape::unescape;
use crate::escape::unescape_seq;
use crate::numfmt::parse_i64;
use crate::numfmt::spec_parse_i64;
use crate::status::QueryError;
use crate::strutil::find_char;
use crate::strutil::find_in;
use crate::strutil::lemma_find_in;
use crate::strutil::split_on;
use crate::strutil::split_str;
use crate::strutil::str_eq;
use vstd::prelude::*;

verus! {

/// The key part of a `key=value` token: everything before the first `=`, or
/// the whole token when there is none.
pub open spec fn token_key(t: Seq<char>) -> Seq<char> {
    t.subrange(0, find_in(t, '='))
}

/// The value part of a `key=value` token: everything after the first `=`, or
/// empty when there is none.
pub open spec fn token_val(t: Seq<char>) -> Seq<char> {
    if find_in(t, '=') == t.len() {
        Seq::empty()
    } else {
        t.skip(find_in(t, '=') + 1)
    }
}

/// Index of the first token whose key is `key`, or `tokens.len()`.
pub open spec fn first_key(tokens: Seq<Seq<char>>, key: Seq<char>) -> int
    decreases tokens.len(),
{
    if tokens.len() == 0 {
        0
    } else if token_key(tokens[0]) == key {
        0
    } else {
        1 + first_key(tokens.drop_first(), key)
    }
}

proof fn lemma_first_key(tokens: Seq<Seq<char>>, key: Seq<char>)
    ensures
        0 <= first_key(tokens, key) <= tokens.len(),
        first_key(tokens, key) < tokens.len() ==> token_key(tokens[first_key(tokens, key)]) == key,
        forall|j: int| 0 <= j < first_key(tokens, key) ==> token_key(tokens[j]) != key,
    decreases tokens.len(),
{
    if tokens.len() > 0 && token_key(tokens[0]) != key {
        lemma_first_key(tokens.drop_first(), key);
        assert forall|j: int| 0 <= j < first_key(tokens, key) implies token_key(tokens[j])
            != key by {
            if j > 0 {
                assert(token_key(tokens.drop_first()[j - 1]) != key);
            }
        }
    }
}

/// The raw value bound to `key` in a record, if the key is present.
pub open spec fn lookup(rec: Seq<char>, key: Seq<char>) -> Option<Seq<char>> {
    let toks = split_on(rec, ' ');
    let k = first_key(toks, key);
    if k == toks.len() {
        None
    } else {
        Some(token_val(toks[k]))
    }
}

/// The value bound to `key`, parsed as a decimal integer.
pub open spec fn lookup_i64(rec: Seq<char>, key: Seq<char>) -> Option<int> {
    match lookup(rec, key) {
        Some(v) => spec_parse_i64(v),
        None => None,
    }
}

/// The value bound to `key`, with protocol escapes undone.
pub open spec fn lookup_text(rec: Seq<char>, key: Seq<char>) -> Option<Seq<char>> {
    match lookup(rec, key) {
        Some(v) => unescape_seq(v),
        None => None,
    }
}

/// The value bound to `key`, read as a flag: a nonzero integer is set.
pub open spec fn lookup_flag(rec: Seq<char>, key: Seq<char>) -> Option<bool> {
    match lookup_i64(rec, key) {
        Some(v) => Some(v != 0),
        None => None,
    }
}

fn token_parts(tok: &str) -> (r: (String, String))
    ensures
        r.0@ == token_key(tok@),
        r.1@ == token_val(tok@),
{
    let n = tok.unicode_len();
    match find_char(tok, 0, '=') {
        Some(e) => {
            proof {
                lemma_find_in(tok@, '=');
                let f = find_in(tok@, '=');
                if f > e {
                    assert(tok@[e as int] != '=');
                }
                if f < e {
                    assert(tok@[f] == '=');
                }
                assert(f == e);
            }
            let k = tok.substring_char(0, e);
            let v = tok.substring_char(e + 1, n);
            proof {
                assert(v@ =~= tok@.skip(e + 1));
            }
            (k.to_owned(), v.to_owned())
        },
        None => {
            proof {
                lemma_find_in(tok@, '=');
                let f = find_in(tok@, '=');
                if f < tok@.len() {
                    assert(tok@[f] == '=');
                }
                assert(f == tok@.len());
                assert(tok@.subrange(0, f) =~= tok@);
            }
            (tok.to_owned(), String::new())
        },
    }
}

/// The raw value bound to `key` in a record.
pub fn find_value(rec: &str, key: &str) -> (r: Option<String>)
    ensures
        match r {
            Some(v) => lookup(rec@, key@) == Some(v@),
            None => lookup(rec@, key@) is None,
        },
{
    let toks = split_str(rec, ' ');
    let ghost views = toks@.map_values(|t: String| t@);
    proof {
        lemma_first_key(views, key@);
    }
    let mut k: usize = 0;
    while k < toks.len()
        invariant
            0 <= k <= toks@.len(),
            views == toks@.map_values(|t: String| t@),
            views == split_on(rec@, ' '),
            forall|j: int| 0 <= j < k ==> token_key(views[j]) != key@,
        decreases toks@.len() - k,
    {
        proof {
            assert(views[k as int] == toks@[k as int]@);
        }
        let parts = token_parts(toks[k].as_str());
        if str_eq(parts.0.as_str(), key) {
            proof {
                lemma_first_key(views, key@);
                let f = first_key(views, key@);
                if f < k {
                    assert(token_key(views[f]) != key@);
                }
                if f > k || f == views.len() {
                    assert(forall|j: int| 0 <= j < f ==> token_key(views[j]) != key@);
                    assert(token_key(views[k as int]) == key@);
                }
                assert(f == k);
            }
            return Some(parts.1);
        }
        k = k + 1;
    }
    proof {
        lemma_first_key(views, key@);
        let f = first_key(views, key@);
        if f < views.len() {
            assert(token_key(views[f]) != key@);
        }
    }
    None
}

/// The value bound to `key`, parsed as a decimal integer.
pub fn get_i64(rec: &str, key: &str) -> (r: Option<i64>)
    ensures
        match r {
            Some(v) => lookup_i64(rec@, key@) == Some(v as int),
            None => lookup_i64(rec@, key@) is None,
        },
{
    match find_value(rec, key) {
        Some(v) => parse_i64(v.as_str()),
        None => None,
    }
}

/// The value bound to `key`, with protocol escapes undone.
pub fn get_text(rec: &str, key: &str) -> (r: Option<String>)
    ensures
        match r {
            Some(v) => lookup_text(rec@, key@) == Some(v@),
            None => lookup_text(rec@, key@) is None,
        },
{
    match find_value(rec, key) {
        Some(v) => unescape(v.as_str()),
        None => None,
    }
}

/// The value bound to `key`, read as a flag.
pub fn get_flag(rec: &str, key: &str) -> (r: Option<bool>)
    ensures
        match r {
            Some(v) => lookup_flag(rec@, key@) == Some(v),
            None => lookup_flag(rec@, key@) is None,
        },
{
    match get_i64(rec, key) {
        Some(v) => Some(v != 0),
        None => None,
    }
}

/// The records of a result body: the first data line split on `|`. A body
/// with no data at all has no records.
pub open spec fn records_of(body: Seq<char>) -> Option<Seq<Seq<char>>> {
    if body.len() == 0 {
        None
    } else {
        Some(split_on(split_on(body, '\n')[0], '|'))
    }
}

/// Split a result body into its records.
pub fn split_records(body: &str) -> (r: Option<Vec<String>>)
    ensures
        match r {
            Some(v) => records_of(body@) == Some(v@.map_values(|t: String| t@)),
            None => records_of(body@) is None,
        },
{
    let n = body.unicode_len();
    if n == 0 {
        return None;
    }
    let line = match find_char(body, 0, '\n') {
        Some(i) => {
            proof {
                lemma_find_in(body@, '\n');
                let f = find_in(body@, '\n');
                if f > i {
                    assert(body@[i as int] != '\n');
                }
                if f < i {
                    assert(body@[f] == '\n');
                }
                assert(f == i);
                assert(split_on(body@, '\n')[0] == body@.subrange(0, i as int));
            }
            body.substring_char(0, i)
        },
        None => {
            proof {
                lemma_find_in(body@, '\n');
                let f = find_in(body@, '\n');
                if f < body@.len() {
                    assert(body@[f] == '\n');
                }
                assert(f == body@.len());
                assert(split_on(body@, '\n') =~= seq![body@]);
            }
            body.substring_char(0, n)
        },
    };
    proof {
        assert(line@ == split_on(body@, '\n')[0]);
    }
    Some(split_str(line, '|'))
}

/// Own client id and database id, as reported at session start.
#[derive(Debug, Clone)]
pub struct WhoAmI {
    pub client_id: i64,
    pub client_database_id: i64,
}

/// The spec-level reading of a `whoami` record.
pub open spec fn spec_whoami(rec: Seq<char>) -> Option<(int, int)> {
    match (lookup_i64(rec, "client_id"@), lookup_i64(rec, "client_database_id"@)) {
        (Some(cid), Some(dbid)) => Some((cid, dbid)),
        _ => None,
    }
}

/// Read a `whoami` record.
pub fn whoami_from_query(rec: &str) -> (r: Result<WhoAmI, QueryError>)
    ensures
        match r {
            Ok(w) => spec_whoami(rec@) == Some((w.client_id as int, w.client_database_id as int)),
            Err(e) => spec_whoami(rec@) is None && e matches QueryError::Field,
        },
{
    let client_id = match get_i64(rec, "client_id") {
        Some(v) => v,
        None => {
            return Err(QueryError::Field);
        },
    };
    let client_database_id = match get_i64(rec, "client_database_id") {
        Some(v) => v,
        None => {
            return Err(QueryError::Field);
        },
    };
    Ok(WhoAmI { client_id, client_database_id })
}

/// One connected client as reported by the client listing.
#[derive(Debug, Clone)]
pub struct Client {
    pub client_id: i64,
    pub channel_id: i64,
    pub client_database_id: i64,
    pub client_nickname: String,
    pub client_type: i64,
}

impl Client {
    /// A human client; query/bot clients carry client type 1.
    pub fn client_is_user(&self) -> (r: bool)
        ensures
            r == (self.client_type == 0),
    {
        self.client_type == 0
    }
}

/// The spec-level reading of a client record: id, channel, database id,
/// nickname and client type.
pub open spec fn spec_client(rec: Seq<char>) -> Option<(int, int, int, Seq<char>, int)> {
    match (
        lookup_i64(rec, "clid"@),
        lookup_i64(rec, "cid"@),
        lookup_i64(rec, "client_database_id"@),
        lookup_text(rec, "client_nickname"@),
        lookup_i64(rec, "client_type"@),
    ) {
        (Some(id), Some(ch), Some(db), Some(nick), Some(ty)) => Some((id, ch, db, nick, ty)),
        _ => None,
    }
}

/// Whether `c` is the reading of `rec`.
pub open spec fn client_matches(c: Client, rec: Seq<char>) -> bool {
    spec_client(rec) == Some(
        (
            c.client_id as int,
            c.channel_id as int,
            c.client_database_id as int,
            c.client_nickname@,
            c.client_type as int,
        ),
    )
}

/// Read one client record.
pub fn client_from_query(rec: &str) -> (r: Result<Client, QueryError>)
    ensures
        match r {
            Ok(c) => client_matches(c, rec@),
            Err(e) => spec_client(rec@) is None && e matches QueryError::Field,
        },
{
    let client_id = match get_i64(rec, "clid") {
        Some(v) => v,
        None => {
            return Err(QueryError::Field);
        },
    };
    let channel_id = match get_i64(rec, "cid") {
        Some(v) => v,
        None => {
            return Err(QueryError::Field);
        },
    };
    let client_database_id = match get_i64(rec, "client_database_id") {
        Some(v) => v,
        None => {
            return Err(QueryError::Field);
        },
    };
    let client_nickname = match get_text(rec, "client_nickname") {
        Some(v) => v,
        None => {
            return Err(QueryError::Field);
        },
    };
    let client_type = match get_i64(rec, "client_type") {
        Some(v) => v,
        None => {
            return Err(QueryError::Field);
        },
    };
    Ok(Client { client_id, channel_id, client_database_id, client_nickname, client_type })
}

/// Read every record of a client listing body.
pub fn parse_clients(body: &str) -> (r: Result<Vec<Client>, QueryError>)
    ensures
        match r {
            Ok(v) => records_of(body@) matches Some(recs) && v@.len() == recs.len() && (forall|
                i: int,
            |
                0 <= i < recs.len() ==> client_matches(v@[i], recs[i])),
            Err(e) => match records_of(body@) {
                Some(recs) => (exists|i: int| 0 <= i < recs.len() && spec_client(recs[i]) is None)
                    && e matches QueryError::Field,
                None => e matches QueryError::NoData,
            },
        },
{
    let recs = match split_records(body) {
        Some(v) => v,
        None => {
            return Err(QueryError::NoData);
        },
    };
    let ghost views = recs@.map_values(|t: String| t@);
    let mut out: Vec<Client> = Vec::new();
    let mut i: usize = 0;
    while i < recs.len()
        invariant
            0 <= i <= recs@.len(),
            views == recs@.map_values(|t: String| t@),
            records_of(body@) == Some(views),
            out@.len() == i,
            forall|j: int| 0 <= j < i ==> client_matches(out@[j], views[j]),
        decreases recs@.len() - i,
    {
        proof {
            assert(views[i as int] == recs@[i as int]@);
        }
        match client_from_query(recs[i].as_str()) {
            Ok(c) => {
                out.push(c);
            },
            Err(e) => {
                proof {
                    assert(spec_client(views[i as int]) is None);
                    assert(match records_of(body@) {
                        Some(rs) => exists|j: int|
                            0 <= j < rs.len() && spec_client(rs[j]) is None,
                        None => false,
                    });
                }
                return Err(e);
            },
        }
        i = i + 1;
    }
    Ok(out)
}

/// One channel as reported by the channel listing: id and parent id.
#[derive(Debug, Clone)]
pub struct Channel {
    pub cid: i64,
    pub pid: i64,
}

/// The spec-level reading of a channel record.
pub open spec fn spec_channel(rec: Seq<char>) -> Option<(int, int)> {
    match (lookup_i64(rec, "cid"@), lookup_i64(rec, "pid"@)) {
        (Some(cid), Some(pid)) => Some((cid, pid)),
        _ => None,
    }
}

/// Whether `c` is the reading of `rec`.
pub open spec fn channel_matches(c: Channel, rec: Seq<char>) -> bool {
    spec_channel(rec) == Some((c.cid as int, c.pid as int))
}

/// Read one channel record.
pub fn channel_from_query(rec: &str) -> (r: Result<Channel, QueryError>)
    ensures
        match r {
            Ok(c) => channel_matches(c, rec@),
            Err(e) => spec_channel(rec@) is None && e matches QueryError::Field,
        },
{
    let cid = match get_i64(rec, "cid") {
        Some(v) => v,
        None => {
            return Err(QueryError::Field);
        },
    };
    let pid = match get_i64(rec, "pid") {
        Some(v) => v,
        None => {
            return Err(QueryError::Field);
        },
    };
    Ok(Channel { cid, pid })
}

/// Read every record of a channel listing body.
pub fn parse_channels(body: &str) -> (r: Result<Vec<Channel>, QueryError>)
    ensures
        match r {
            Ok(v) => records_of(body@) matches Some(recs) && v@.len() == recs.len() && (forall|
                i: int,
            |
                0 <= i < recs.len() ==> channel_matches(v@[i], recs[i])),
            Err(e) => match records_of(body@) {
                Some(recs) => (exists|i: int| 0 <= i < recs.len() && spec_channel(recs[i]) is None)
                    && e matches QueryError::Field,
                None => e matches QueryError::NoData,
            },
        },
{
    let recs = match split_records(body) {
        Some(v) => v,
        None => {
            return Err(QueryError::NoData);
        },
    };
    let ghost views = recs@.map_values(|t: String| t@);
    let mut out: Vec<Channel> = Vec::new();
    let mut i: usize = 0;
    while i < recs.len()
        invariant
            0 <= i <= recs@.len(),
            views == recs@.map_values(|t: String| t@),
            records_of(body@) == Some(views),
            out@.len() == i,
            forall|j: int| 0 <= j < i ==> channel_matches(out@[j], views[j]),
        decreases recs@.len() - i,
    {
        proof {
            assert(views[i as int] == recs@[i as int]@);
        }
        match channel_from_query(recs[i].as_str()) {
            Ok(c) => {
                out.push(c);
            },
            Err(e) => {
                proof {
                    assert(spec_channel(views[i as int]) is None);
                    assert(match records_of(body@) {
                        Some(rs) => exists|j: int|
                            0 <= j < rs.len() && spec_channel(rs[j]) is None,
                        None => false,
                    });
                }
                return Err(e);
            },
        }
        i = i + 1;
    }
    Ok(out)
}

/// Server identity: the virtual server's unique identifier, used to namespace
/// cache keys.
#[derive(Debug, Clone)]
pub struct ServerInfo {
    pub virtual_server_unique_identifier: String,
}

/// The spec-level reading of a server-info record.
pub open spec fn spec_server_info(rec: Seq<char>) -> Option<Seq<char>> {
    lookup_text(rec, "virtual_server_unique_identifier"@)
}

/// Read a server-info record.
pub fn server_info_from_query(rec: &str) -> (r: Result<ServerInfo, QueryError>)
    ensures
        match r {
            Ok(s) => spec_server_info(rec@) == Some(s.virtual_server_unique_identifier@),
            Err(e) => spec_server_info(rec@) is None && e matches QueryError::Field,
        },
{
    match get_text(rec, "virtual_server_unique_identifier") {
        Some(v) => Ok(ServerInfo { virtual_server_unique_identifier: v }),
        None => Err(QueryError::Field),
    }
}

/// The id of a freshly created channel.
#[derive(Debug, Clone)]
pub struct CreateChannel {
    pub cid: i64,
}

impl CreateChannel {
    pub fn cid(&self) -> (r: i64)
        ensures
            r == self.cid,
    {
        self.cid
    }
}

/// The spec-level reading of a channel-creation record.
pub open spec fn spec_create_channel(rec: Seq<char>) -> Option<int> {
    lookup_i64(rec, "cid"@)
}

/// Read a channel-creation record.
pub fn create_channel_from_query(rec: &str) -> (r: Result<CreateChannel, QueryError>)
    ensures
        match r {
            Ok(c) => spec_create_channel(rec@) == Some(c.cid as int),
            Err(e) => spec_create_channel(rec@) is None && e matches QueryError::Field,
        },
{
    match get_i64(rec, "cid") {
        Some(v) => Ok(CreateChannel { cid: v }),
        None => Err(QueryError::Field),
    }
}

/// A client's database id as resolved from its unique identifier.
#[derive(Debug, Clone)]
pub struct DatabaseId {
    pub client_database_id: i64,
}

impl DatabaseId {
    pub fn client_database_id(&self) -> (r: i64)
        ensures
            r == self.client_database_id,
    {
        self.client_database_id
    }
}

/// The spec-level reading of a database-id record.
pub open spec fn spec_database_id(rec: Seq<char>) -> Option<int> {
    lookup_i64(rec, "cldbid"@)
}

/// Read a database-id record.
pub fn database_id_from_query(rec: &str) -> (r: Result<DatabaseId, QueryError>)
    ensures
        match r {
            Ok(d) => spec_database_id(rec@) == Some(d.client_database_id as int),
            Err(e) => spec_database_id(rec@) is None && e matches QueryError::Field,
        },
{
    match get_i64(rec, "cldbid") {
        Some(v) => Ok(DatabaseId { client_database_id: v }),
        None => Err(QueryError::Field),
    }
}

/// Detailed per-client info; only the muted flag matters here.
#[derive(Debug, Clone)]
pub struct ClientInfo {
    pub client_input_muted: bool,
}

impl ClientInfo {
    /// Whether the client reports itself muted.
    pub fn is_client_muted(&self) -> (r: bool)
        ensures
            r == self.client_input_muted,
    {
        self.client_input_muted
    }
}

/// The spec-level reading of a client-info record.
pub open spec fn spec_client_info(rec: Seq<char>) -> Option<bool> {
    lookup_flag(rec, "client_input_muted"@)
}

/// Read a client-info record.
pub fn client_info_from_query(rec: &str) -> (r: Result<ClientInfo, QueryError>)
    ensures
        match r {
            Ok(c) => spec_client_info(rec@) == Some(c.client_input_muted),
            Err(e) => spec_client_info(rec@) is None && e matches QueryError::Field,
        },
{
    match get_flag(rec, "client_input_muted") {
        Some(v) => Ok(ClientInfo { client_input_muted: v }),
        None => Err(QueryError::Field),
    }
}

/// Read the first record of a result body, failing when the body carries no
/// data at all.
pub fn first_record(body: &str) -> (r: Result<String, QueryError>)
    ensures
        match r {
            Ok(rec) => records_of(body@) matches Some(recs) && recs.len() >= 1 && rec@ == recs[0],
            Err(e) => records_of(body@) is None && e matches QueryError::NoData,
        },
{
    let recs = match split_records(body) {
        Some(v) => v,
        None => {
            return Err(QueryError::NoData);
        },
    };
    proof {
        let ghost views = recs@.map_values(|t: String| t@);
        if body@.len() > 0 {
            crate::strutil::lemma_split_on_len(split_on(body@, '\n')[0], '|');
        }
        assert(views.len() >= 1);
        assert(views[0] == recs@[0]@);
    }
    let first = recs[0].clone();
    proof {
        assert(first@ == recs@[0]@);
    }
    Ok(first)
}

} // verus!
