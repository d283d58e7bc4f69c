//! Decision logic of the automation engine.
//!
//! The engine is a long-running loop: it waits on an inbound event or a
//! timer, then scans connected clients and provisions a private channel per
//! client under the monitored channels, remembering its work in an
//! idempotency cache. Everything that decides is here, verified; the loop
//! that performs I/O hands each event or call outcome to these functions and
//! carries out the steps they return.

use crate::numfmt::dec_int;
use crate::numfmt::parse_i64;
use crate::numfmt::spec_parse_i64;
use crate::numfmt::push_dec_i64;
use crate::rows::Client;
use crate::rows::ClientInfo;
use vstd::prelude::*;

verus! {

/// Error code returned when a channel of the requested name already exists.
pub const NAME_COLLISION_CODE: i64 = 771;

/// Error code returned when a client is moved to a channel id that no longer
/// exists.
pub const INVALID_CHANNEL_CODE: i64 = 768;

/// The fixed permission pair every freshly provisioned channel receives.
pub const DEFAULT_PERMISSION_ID: u64 = 133;

pub const DEFAULT_PERMISSION_VALUE: i64 = 75;

/// Cap on name-collision retries, so a misbehaving server cannot hold the
/// engine in an unbounded rename loop.
pub const MAX_NAME_ATTEMPTS: u32 = 32;

/// The client identity carried by an update notification: who and where.
#[derive(Debug, Clone, Copy)]
pub struct ClientBasicInfo {
    pub client_id: i64,
    pub channel_id: i64,
}

/// One inbound event for the engine loop.
#[derive(Debug)]
pub enum AutoChannelEvent {
    /// A client appeared or moved; payload is its id and channel.
    Update(ClientBasicInfo),
    /// Drop the cache entries of the client with this unique identifier, on
    /// behalf of the requesting client id.
    DeleteChannel(i64, String),
    /// Run the next scan even if no monitored channel changed.
    ShouldRefresh,
    /// Leave the loop and log out.
    Terminate,
}

/// The mute-porter policy configuration.
#[derive(Debug, Clone)]
pub struct MutePorter {
    pub enable: bool,
    pub monitor_channel: i64,
    pub target_channel: i64,
    pub whitelist: Vec<i64>,
}

impl MutePorter {
    /// Whether the database id is exempt from porting.
    pub fn check_whitelist(&self, client_database_id: i64) -> (r: bool)
        ensures
            r == self.whitelist@.contains(client_database_id),
    {
        contains_i64(&self.whitelist, client_database_id)
    }
}

/// The engine's immutable configuration, computed once at startup.
#[derive(Debug, Clone)]
pub struct EngineConfig {
    /// Channels watched for clients to provision.
    pub monitor_channels: Vec<i64>,
    /// Privilege group granted to a client in its fresh channel.
    pub privilege_group: i64,
    /// Extra permission pairs per monitored channel.
    pub channel_permissions: Vec<(i64, Vec<(u64, i64)>)>,
    /// Text sent to a client after a successful move.
    pub moved_message: String,
    /// Nickname the engine adopts at session start.
    pub nickname: String,
    pub mute_porter: MutePorter,
}

/// The engine's mutable loop state: whether the next timeout falls through
/// into a scan, and whether the next iteration skips the wait entirely.
#[derive(Debug)]
pub struct EngineState {
    pub should_refresh: bool,
    pub skip_sleep: bool,
}

/// The state a fresh engine starts in: the first iteration scans at once.
pub fn initial_state() -> (s: EngineState)
    ensures
        s.skip_sleep == true,
        s.should_refresh == false,
{
    EngineState { should_refresh: false, skip_sleep: true }
}

/// Decide whether this iteration waits for an event or scans immediately,
/// consuming a pending forced rescan.
pub fn begin_iteration(state: &mut EngineState) -> (wait: bool)
    ensures
        wait == !old(state).skip_sleep,
        final(state).skip_sleep == false,
        final(state).should_refresh == old(state).should_refresh,
{
    let wait = !state.skip_sleep;
    state.skip_sleep = false;
    wait
}

/// What the loop does with the event it received while waiting.
#[derive(Debug)]
pub enum WaitStep {
    /// Leave the loop and log out.
    Exit,
    /// Self-echo: wait again without scanning.
    Ignore,
    /// Fall through into the scan phase.
    Scan,
    /// Resolve the unique id, purge its cache entries across the monitored
    /// channels, acknowledge the requester, then scan.
    ResolveAndPurge { requester: i64, uid: String },
}

/// Handle one inbound event: terminate exits; an update about the engine's
/// own client is ignored; any other update scans; a delete-channel request
/// is resolved and purged; a refresh request flags the next timeout and
/// scans.
pub fn handle_event(state: &mut EngineState, event: AutoChannelEvent, own_client_id: i64) -> (step:
    WaitStep)
    ensures
        final(state).skip_sleep == old(state).skip_sleep,
        match event {
            AutoChannelEvent::Terminate => step matches WaitStep::Exit && *final(state)
                == *old(state),
            AutoChannelEvent::Update(v) => *final(state) == *old(state) && if v.client_id
                == own_client_id {
                step matches WaitStep::Ignore
            } else {
                step matches WaitStep::Scan
            },
            AutoChannelEvent::DeleteChannel(req, uid) => *final(state) == *old(state) && (
            step matches WaitStep::ResolveAndPurge { requester, uid: u } && requester == req && u
                == uid),
            AutoChannelEvent::ShouldRefresh => final(state).should_refresh == true && (
            step matches WaitStep::Scan),
        },
{
    match event {
        AutoChannelEvent::Terminate => WaitStep::Exit,
        AutoChannelEvent::Update(v) => {
            if v.client_id == own_client_id {
                WaitStep::Ignore
            } else {
                WaitStep::Scan
            }
        },
        AutoChannelEvent::DeleteChannel(req, uid) => WaitStep::ResolveAndPurge {
            requester: req,
            uid,
        },
        AutoChannelEvent::ShouldRefresh => {
            state.should_refresh = true;
            WaitStep::Scan
        },
    }
}

/// What a wait timeout leads to: always a keep-alive, the mute porter when
/// enabled, and a scan only when one was requested since the last scan.
#[derive(Debug)]
pub struct TimeoutPlan {
    pub keepalive: bool,
    pub run_porter: bool,
    pub scan: bool,
}

pub fn handle_timeout(state: &EngineState, porter_enabled: bool) -> (p: TimeoutPlan)
    ensures
        p.keepalive == true,
        p.run_porter == porter_enabled,
        p.scan == state.should_refresh,
{
    TimeoutPlan { keepalive: true, run_porter: porter_enabled, scan: state.should_refresh }
}

/// A scan has run: the pending refresh request, if any, is satisfied.
pub fn finish_scan(state: &mut EngineState)
    ensures
        final(state).should_refresh == false,
        final(state).skip_sleep == old(state).skip_sleep,
{
    state.should_refresh = false;
}

/// A stale cache entry was found: the next iteration skips its wait and
/// rescans at once.
pub fn mark_rescan(state: &mut EngineState)
    ensures
        final(state).skip_sleep == true,
        final(state).should_refresh == old(state).should_refresh,
{
    state.skip_sleep = true;
}

/// Whether a vector of channel ids holds `x`.
pub fn contains_i64(v: &Vec<i64>, x: i64) -> (r: bool)
    ensures
        r == v@.contains(x),
{
    let mut i: usize = 0;
    while i < v.len()
        invariant
            0 <= i <= v@.len(),
            forall|j: int| 0 <= j < i ==> v@[j] != x,
        decreases v@.len() - i,
    {
        if v[i] == x {
            return true;
        }
        i = i + 1;
    }
    proof {
        assert(forall|j: int| 0 <= j < v@.len() ==> v@[j] != x);
    }
    false
}

/// Whether a scan works on this client at all: not the engine itself, inside
/// a monitored channel, and human (client type 0; type 1 is a query client).
pub open spec fn spec_eligible(c: Client, own_database_id: i64, monitor: Seq<i64>) -> bool {
    c.client_database_id != own_database_id && monitor.contains(c.channel_id) && c.client_type != 1
}

pub fn client_eligible(client: &Client, own_database_id: i64, monitor_channels: &Vec<i64>) -> (r:
    bool)
    ensures
        r == spec_eligible(*client, own_database_id, monitor_channels@),
{
    client.client_database_id != own_database_id && contains_i64(
        monitor_channels,
        client.channel_id,
    ) && client.client_type != 1
}

/// The engine touches no channel outside the monitor set: a client is only
/// eligible when its current channel — the channel every later step (cache
/// key, creation parent) is derived from — is monitored.
pub proof fn lemma_monitored_channels_only(c: Client, own_database_id: i64, monitor: Seq<i64>)
    requires
        spec_eligible(c, own_database_id, monitor),
    ensures
        monitor.contains(c.channel_id),
{
}

/// The cache key for one (client, server, monitored channel) triple.
pub open spec fn spec_cache_key(
    client_database_id: int,
    server_id: Seq<char>,
    channel_id: int,
) -> Seq<char> {
    "ts_autochannel_"@ + dec_int(client_database_id) + "_"@ + server_id + "_"@ + dec_int(channel_id)
}

/// Build the deterministic cache key naming one client's private channel
/// under one monitored channel of one server.
pub fn build_redis_key(client_database_id: i64, server_id: &str, channel_id: i64) -> (r: String)
    ensures
        r@ == spec_cache_key(client_database_id as int, server_id@, channel_id as int),
{
    let mut out = String::from_str("ts_autochannel_");
    push_dec_i64(&mut out, client_database_id);
    out.append("_");
    out.append(server_id);
    out.append("_");
    push_dec_i64(&mut out, channel_id);
    out
}

/// The cache keys of one client across every monitored channel, in the
/// monitor set's order, as purged on a delete-channel request.
pub fn purge_keys(client_database_id: i64, server_id: &str, monitor_channels: &Vec<i64>) -> (keys:
    Vec<String>)
    ensures
        keys@.len() == monitor_channels@.len(),
        forall|i: int|
            0 <= i < keys@.len() ==> keys@[i]@ == spec_cache_key(
                client_database_id as int,
                server_id@,
                monitor_channels@[i] as int,
            ),
{
    let mut keys: Vec<String> = Vec::new();
    let mut i: usize = 0;
    while i < monitor_channels.len()
        invariant
            0 <= i <= monitor_channels@.len(),
            keys@.len() == i,
            forall|j: int|
                0 <= j < i ==> keys@[j]@ == spec_cache_key(
                    client_database_id as int,
                    server_id@,
                    monitor_channels@[j] as int,
                ),
        decreases monitor_channels@.len() - i,
    {
        let key = build_redis_key(client_database_id, server_id, monitor_channels[i]);
        keys.push(key);
        i = i + 1;
    }
    keys
}

/// The acknowledgement sent to the requester of a delete-channel event.
pub fn delete_channel_ack() -> (r: String)
    ensures
        r@ == "Received."@,
{
    String::from_str("Received.")
}

/// Read a cached value as a channel id; anything unparsable counts as a
/// cache miss.
pub fn parse_cache_value(v: Option<String>) -> (r: Option<i64>)
    ensures
        match v {
            Some(s) => r == (match spec_parse_i64(s@) {
                Some(t) => Some(t as i64),
                None => None::<i64>,
            }),
            None => r is None,
        },
{
    match v {
        Some(s) => parse_i64(s.as_str()),
        None => None,
    }
}

/// Whether a scan provisions a fresh channel: exactly on a cache miss.
pub open spec fn provisions(cached: Option<i64>) -> bool {
    cached is None
}

/// Idempotence of provisioning: once a cache entry for the (client, server,
/// channel) triple is populated, a scan plans a move to the cached channel
/// and never a creation, on this and every later scan alike.
pub proof fn lemma_populated_cache_never_creates(cached: Option<i64>)
    requires
        cached is Some,
    ensures
        !provisions(cached),
{
}

/// What the scan does with one eligible client.
#[derive(Debug)]
pub enum ClientAction {
    /// Cache hit: move the client straight to the cached channel.
    MoveExisting { target: i64 },
    /// Cache miss: create a channel of this name under this parent, then
    /// provision and move.
    Provision { name: String, parent: i64 },
}

/// Plan one eligible client's handling from its cache lookup: a hit moves to
/// the cached target; a miss provisions a channel named after the client
/// under the client's current channel.
pub fn scan_client_action(client: &Client, cached: Option<i64>) -> (a: ClientAction)
    ensures
        (a matches ClientAction::Provision { .. }) == provisions(cached),
        match cached {
            Some(t) => a matches ClientAction::MoveExisting { target } && target == t,
            None => a matches ClientAction::Provision { name, parent } && name@
                == client.client_nickname@ + "'s channel"@ && parent == client.channel_id,
        },
{
    match cached {
        Some(t) => ClientAction::MoveExisting { target: t },
        None => {
            let mut name = client.client_nickname.clone();
            proof {
                assert(name@ == client.client_nickname@);
            }
            name.append("'s channel");
            ClientAction::Provision { name, parent: client.channel_id }
        },
    }
}

/// The name tried on the `k`-th creation attempt: the base name with `k`
/// collision suffixes appended.
pub open spec fn attempt_name(base: Seq<char>, k: nat) -> Seq<char>
    decreases k,
{
    if k == 0 {
        base
    } else {
        attempt_name(base, (k - 1) as nat) + "1"@
    }
}

/// The attempted names grow strictly: each is a proper prefix of the next,
/// so no two attempts ever repeat a name.
pub proof fn lemma_attempt_names_grow(base: Seq<char>, k: nat)
    ensures
        attempt_name(base, k).len() == base.len() + k,
        attempt_name(base, k).is_prefix_of(attempt_name(base, k + 1)),
        attempt_name(base, k + 1).len() > attempt_name(base, k).len(),
    decreases k,
{
    reveal_strlit("1");
    if k > 0 {
        lemma_attempt_names_grow(base, (k - 1) as nat);
    }
    assert(attempt_name(base, k + 1) == attempt_name(base, k) + "1"@);
    assert(attempt_name(base, k).is_prefix_of(attempt_name(base, k) + "1"@)) by {
        assert((attempt_name(base, k) + "1"@).subrange(0, attempt_name(base, k).len() as int)
            =~= attempt_name(base, k));
    }
}

/// How a failed creation attempt continues.
#[derive(Debug)]
pub enum CreateRetry {
    /// A name collision with attempts to spare: try again under this name.
    Retry { name: String },
    /// Any other failure, or the retry budget is spent: skip this client for
    /// the iteration.
    GiveUp,
}

/// Decide whether a failed creation is retried: only a name collision is,
/// with one `1` appended to the name, and only while the attempt budget
/// lasts, so the retry loop always terminates.
pub fn creation_retry(name: &str, attempts: u32, code: i64) -> (r: CreateRetry)
    ensures
        if code == NAME_COLLISION_CODE && attempts + 1 < MAX_NAME_ATTEMPTS {
            r matches CreateRetry::Retry { name: n } && n@ == name@ + "1"@
        } else {
            r matches CreateRetry::GiveUp
        },
{
    if code == NAME_COLLISION_CODE && attempts < MAX_NAME_ATTEMPTS - 1 {
        let mut n = name.to_owned();
        n.append("1");
        CreateRetry::Retry { name: n }
    } else {
        CreateRetry::GiveUp
    }
}

/// One best-effort step after a successful creation.
#[derive(Debug)]
pub enum EngineAction {
    /// Grant the client its privilege group inside the new channel.
    SetChannelGroup { client_database_id: i64, channel_id: i64, group: i64 },
    /// Add permission pairs to the new channel.
    AddPermissions { channel_id: i64, permissions: Vec<(u64, i64)> },
}

/// Index of the first configured permission entry for `channel_id`.
pub open spec fn first_perm_entry(entries: Seq<(i64, Vec<(u64, i64)>)>, channel_id: i64) -> int
    decreases entries.len(),
{
    if entries.len() == 0 {
        0
    } else if entries[0].0 == channel_id {
        0
    } else {
        1 + first_perm_entry(entries.drop_first(), channel_id)
    }
}

proof fn lemma_first_perm_entry(entries: Seq<(i64, Vec<(u64, i64)>)>, channel_id: i64)
    ensures
        0 <= first_perm_entry(entries, channel_id) <= entries.len(),
        first_perm_entry(entries, channel_id) < entries.len() ==> entries[first_perm_entry(
            entries,
            channel_id,
        )].0 == channel_id,
        forall|j: int|
            0 <= j < first_perm_entry(entries, channel_id) ==> entries[j].0 != channel_id,
    decreases entries.len(),
{
    if entries.len() > 0 && entries[0].0 != channel_id {
        lemma_first_perm_entry(entries.drop_first(), channel_id);
        assert forall|j: int| 0 <= j < first_perm_entry(entries, channel_id) implies entries[j].0
            != channel_id by {
            if j > 0 {
                assert(entries.drop_first()[j - 1].0 != channel_id);
            }
        }
    }
}

fn copy_perms(src: &Vec<(u64, i64)>) -> (r: Vec<(u64, i64)>)
    ensures
        r@ == src@,
{
    let mut r: Vec<(u64, i64)> = Vec::new();
    let mut j: usize = 0;
    while j < src.len()
        invariant
            0 <= j <= src@.len(),
            r@ == src@.take(j as int),
        decreases src@.len() - j,
    {
        r.push(src[j]);
        proof {
            assert(src@.take(j + 1 as int) =~= src@.take(j as int).push(src@[j as int]));
        }
        j = j + 1;
    }
    proof {
        assert(src@.take(src@.len() as int) =~= src@);
    }
    r
}

/// The extra permission pairs configured for a monitored channel, if any.
pub fn configured_permissions(cfg: &EngineConfig, channel_id: i64) -> (r: Option<Vec<(u64, i64)>>)
    ensures
        ({
            let entries = cfg.channel_permissions@;
            let k = first_perm_entry(entries, channel_id);
            match r {
                Some(v) => k < entries.len() && v@ == entries[k].1@,
                None => k == entries.len(),
            }
        }),
{
    let ghost entries = cfg.channel_permissions@;
    proof {
        lemma_first_perm_entry(entries, channel_id);
    }
    let mut i: usize = 0;
    while i < cfg.channel_permissions.len()
        invariant
            0 <= i <= entries.len(),
            entries == cfg.channel_permissions@,
            forall|j: int| 0 <= j < i ==> entries[j].0 != channel_id,
        decreases entries.len() - i,
    {
        if cfg.channel_permissions[i].0 == channel_id {
            proof {
                lemma_first_perm_entry(entries, channel_id);
                let f = first_perm_entry(entries, channel_id);
                if f < i {
                    assert(entries[f].0 != channel_id);
                }
                if f > i || f == entries.len() {
                    assert(entries[i as int].0 == channel_id);
                }
                assert(f == i);
            }
            return Some(copy_perms(&cfg.channel_permissions[i].1));
        }
        i = i + 1;
    }
    proof {
        lemma_first_perm_entry(entries, channel_id);
        let f = first_perm_entry(entries, channel_id);
        if f < entries.len() {
            assert(entries[f].0 != channel_id);
        }
    }
    None
}

/// The ordered best-effort steps after a channel was created for `client`:
/// grant the privilege group, add the fixed default permission pair, and add
/// the channel's configured extra permissions when there are any. The move
/// itself follows these, in this order, always.
pub fn provision_steps(
    cfg: &EngineConfig,
    client: &Client,
    new_channel: i64,
    extra: Option<Vec<(u64, i64)>>,
) -> (steps: Vec<EngineAction>)
    ensures
        steps@.len() == match extra {
            Some(_) => 3int,
            None => 2int,
        },
        steps@[0] matches EngineAction::SetChannelGroup {
            client_database_id,
            channel_id,
            group,
        } && client_database_id == client.client_database_id && channel_id == new_channel && group
            == cfg.privilege_group,
        steps@[1] matches EngineAction::AddPermissions { channel_id, permissions } && channel_id
            == new_channel && permissions@ == seq![
            (DEFAULT_PERMISSION_ID, DEFAULT_PERMISSION_VALUE),
        ],
        match extra {
            Some(v) => steps@[2] matches EngineAction::AddPermissions { channel_id, permissions }
                && channel_id == new_channel && permissions@ == v@,
            None => true,
        },
{
    let mut steps: Vec<EngineAction> = Vec::new();
    steps.push(
        EngineAction::SetChannelGroup {
            client_database_id: client.client_database_id,
            channel_id: new_channel,
            group: cfg.privilege_group,
        },
    );
    let mut default_perms: Vec<(u64, i64)> = Vec::new();
    default_perms.push((DEFAULT_PERMISSION_ID, DEFAULT_PERMISSION_VALUE));
    proof {
        assert(default_perms@ =~= seq![(DEFAULT_PERMISSION_ID, DEFAULT_PERMISSION_VALUE)]);
    }
    steps.push(EngineAction::AddPermissions { channel_id: new_channel, permissions: default_perms });
    match extra {
        Some(v) => {
            steps.push(EngineAction::AddPermissions { channel_id: new_channel, permissions: v });
        },
        None => {},
    }
    steps
}

/// How a failed move is handled.
#[derive(Debug)]
pub enum MoveFailure {
    /// The cached channel is gone: drop the entry and rescan at once.
    StaleCache,
    /// Any other failure: skip this client for the iteration.
    SkipClient,
}

/// Decide what a failed move means: the invalid-channel code marks the cache
/// entry stale; everything else only skips the client.
pub fn move_failure_action(code: i64) -> (r: MoveFailure)
    ensures
        if code == INVALID_CHANNEL_CODE {
            r matches MoveFailure::StaleCache
        } else {
            r matches MoveFailure::SkipClient
        },
{
    if code == INVALID_CHANNEL_CODE {
        MoveFailure::StaleCache
    } else {
        MoveFailure::SkipClient
    }
}

/// What follows a successful move: the client is notified always; the engine
/// moves itself back out and persists the cache entry exactly when the move
/// ended a fresh provisioning.
#[derive(Debug)]
pub struct MoveSuccessPlan {
    pub notify: bool,
    pub self_move_back: bool,
    pub persist: bool,
}

pub fn move_success_plan(created: bool) -> (p: MoveSuccessPlan)
    ensures
        p.notify == true,
        p.self_move_back == created,
        p.persist == created,
{
    MoveSuccessPlan { notify: true, self_move_back: created, persist: created }
}

/// Whether the mute porter examines this client: human, sitting in the
/// porter's monitored channel, and not whitelisted.
pub fn porter_candidate(client: &Client, porter: &MutePorter) -> (r: bool)
    ensures
        r == (client.client_type == 0 && client.channel_id == porter.monitor_channel
            && !porter.whitelist@.contains(client.client_database_id)),
{
    client.client_is_user() && client.channel_id == porter.monitor_channel
        && !porter.check_whitelist(client.client_database_id)
}

/// Whether a candidate is ported: only when its detailed info arrived and
/// reports it muted.
pub fn porter_should_move(info: &Option<ClientInfo>) -> (r: bool)
    ensures
        r == (info matches Some(ci) && ci.client_input_muted),
{
    match info {
        Some(ci) => ci.is_client_muted(),
        None => false,
    }
}

} // verus!
