//! Command building.
//!
//! One builder per protocol command the automation uses. Each returns the
//! full wire line, newline-then-carriage-return terminated, with free text
//! escaped where the protocol demands it.

use crate::escape::escape;
use crate::escape::escape_seq;
use crate::numfmt::dec_digits;
use crate::numfmt::dec_int;
use crate::numfmt::push_dec_i64;
use crate::numfmt::push_dec_u64;
use crate::status::join_with;
use crate::status::lemma_join_with_push;
use vstd::prelude::*;

verus! {

/// `login <user> <password>`, authenticating the session.
pub fn login_command(user: &str, password: &str) -> (r: String)
    ensures
        r@ == "login "@ + user@ + " "@ + password@ + "\n\r"@,
{
    let mut out = String::from_str("login ");
    out.append(user);
    out.append(" ");
    out.append(password);
    out.append("\n\r");
    out
}

/// `use <server id>`, selecting the virtual server.
pub fn select_server_command(server_id: i64) -> (r: String)
    ensures
        r@ == "use "@ + dec_int(server_id as int) + "\n\r"@,
{
    let mut out = String::from_str("use ");
    push_dec_i64(&mut out, server_id);
    out.append("\n\r");
    out
}

/// `whoami`, identifying the session's own client.
pub fn who_am_i_command() -> (r: String)
    ensures
        r@ == "whoami\n\r"@,
{
    String::from_str("whoami\n\r")
}

/// `serverinfo`, fetching the virtual server's identity.
pub fn server_info_command() -> (r: String)
    ensures
        r@ == "serverinfo\n\r"@,
{
    String::from_str("serverinfo\n\r")
}

/// `clientlist`, enumerating connected clients.
pub fn client_list_command() -> (r: String)
    ensures
        r@ == "clientlist\n\r"@,
{
    String::from_str("clientlist\n\r")
}

/// `channellist`, enumerating channels.
pub fn channel_list_command() -> (r: String)
    ensures
        r@ == "channellist\n\r"@,
{
    String::from_str("channellist\n\r")
}

/// `quit`, ending the session gracefully.
pub fn logout_command() -> (r: String)
    ensures
        r@ == "quit\n\r"@,
{
    String::from_str("quit\n\r")
}

/// Two stacked harmless queries used as a keep-alive.
pub fn keepalive_command() -> (r: String)
    ensures
        r@ == "whoami\n\rbanlist\n\r"@,
{
    String::from_str("whoami\n\rbanlist\n\r")
}

/// `servernotifyregister event=server`.
pub fn register_server_events_command() -> (r: String)
    ensures
        r@ == "servernotifyregister event=server\n\r"@,
{
    String::from_str("servernotifyregister event=server\n\r")
}

/// `servernotifyregister event=textprivate`.
pub fn register_private_text_events_command() -> (r: String)
    ensures
        r@ == "servernotifyregister event=textprivate\n\r"@,
{
    String::from_str("servernotifyregister event=textprivate\n\r")
}

/// `servernotifyregister event=channel id=0`.
pub fn register_channel_events_command() -> (r: String)
    ensures
        r@ == "servernotifyregister event=channel id=0\n\r"@,
{
    String::from_str("servernotifyregister event=channel id=0\n\r")
}

/// `sendtextmessage` to one client, with the text escaped.
pub fn send_text_message_command(client_id: i64, text: &str) -> (r: String)
    ensures
        r@ == "sendtextmessage targetmode=1 target="@ + dec_int(client_id as int) + " msg="@
            + escape_seq(text@) + "\n\r"@,
{
    let mut out = String::from_str("sendtextmessage targetmode=1 target=");
    push_dec_i64(&mut out, client_id);
    out.append(" msg=");
    let escaped = escape(text);
    out.append(escaped.as_str());
    out.append("\n\r");
    out
}

/// `channelcreate` with the escaped channel name, the parent channel, and the
/// fixed codec quality the automation always requests.
pub fn create_channel_command(name: &str, pid: i64) -> (r: String)
    ensures
        r@ == "channelcreate channel_name="@ + escape_seq(name@) + " cpid="@ + dec_int(pid as int)
            + " channel_codec_quality=10\n\r"@,
{
    let mut out = String::from_str("channelcreate channel_name=");
    let escaped = escape(name);
    out.append(escaped.as_str());
    out.append(" cpid=");
    push_dec_i64(&mut out, pid);
    out.append(" channel_codec_quality=10\n\r");
    out
}

/// `clientmove`, moving one client into a channel.
pub fn move_client_command(client_id: i64, target_channel: i64) -> (r: String)
    ensures
        r@ == "clientmove clid="@ + dec_int(client_id as int) + " cid="@ + dec_int(
            target_channel as int,
        ) + "\n\r"@,
{
    let mut out = String::from_str("clientmove clid=");
    push_dec_i64(&mut out, client_id);
    out.append(" cid=");
    push_dec_i64(&mut out, target_channel);
    out.append("\n\r");
    out
}

/// `setclientchannelgroup`, granting a privilege group in a channel.
pub fn set_client_channel_group_command(client_database_id: i64, channel_id: i64, group_id: i64) -> (r:
    String)
    ensures
        r@ == "setclientchannelgroup cgid="@ + dec_int(group_id as int) + " cid="@ + dec_int(
            channel_id as int,
        ) + " cldbid="@ + dec_int(client_database_id as int) + "\n\r"@,
{
    let mut out = String::from_str("setclientchannelgroup cgid=");
    push_dec_i64(&mut out, group_id);
    out.append(" cid=");
    push_dec_i64(&mut out, channel_id);
    out.append(" cldbid=");
    push_dec_i64(&mut out, client_database_id);
    out.append("\n\r");
    out
}

/// One `permid=<id> permvalue=<value>` item of a permission command.
pub open spec fn perm_item(p: (u64, i64)) -> Seq<char> {
    "permid="@ + dec_digits(p.0 as nat) + " permvalue="@ + dec_int(p.1 as int)
}

/// `channeladdperm`, adding permission pairs to a channel, items joined
/// with `|`.
pub fn add_channel_permission_command(target_channel: i64, permissions: &Vec<(u64, i64)>) -> (r:
    String)
    ensures
        r@ == "channeladdperm cid="@ + dec_int(target_channel as int) + " "@ + join_with(
            permissions@.map_values(|p: (u64, i64)| perm_item(p)),
            '|',
        ) + "\n\r"@,
{
    let mut out = String::from_str("channeladdperm cid=");
    push_dec_i64(&mut out, target_channel);
    out.append(" ");
    let ghost head = out@;
    let ghost items = permissions@.map_values(|p: (u64, i64)| perm_item(p));
    let mut k: usize = 0;
    proof {
        assert(items.take(0) =~= Seq::<Seq<char>>::empty());
        assert(head + join_with(items.take(0), '|') =~= head);
    }
    while k < permissions.len()
        invariant
            0 <= k <= permissions@.len(),
            items == permissions@.map_values(|p: (u64, i64)| perm_item(p)),
            out@ == head + join_with(items.take(k as int), '|'),
        decreases permissions@.len() - k,
    {
        let ghost out0 = out@;
        if k > 0 {
            out.append("|");
            proof {
                reveal_strlit("|");
                assert("|"@ =~= seq!['|']);
            }
        }
        let p = permissions[k];
        out.append("permid=");
        push_dec_u64(&mut out, p.0);
        out.append(" permvalue=");
        push_dec_i64(&mut out, p.1);
        proof {
            assert(items[k as int] == perm_item(permissions@[k as int]));
            assert(items.take(k + 1 as int) =~= items.take(k as int).push(items[k as int]));
            lemma_join_with_push(items.take(k as int), '|', items[k as int]);
            assert(items.take(k as int).len() == k);
            if k > 0 {
                assert(out@ =~= head + (join_with(items.take(k as int), '|') + seq!['|']
                    + items[k as int]));
            } else {
                assert(out@ =~= head + items[0]);
            }
        }
        k = k + 1;
    }
    proof {
        assert(items.take(permissions@.len() as int) =~= items);
    }
    out.append("\n\r");
    out
}

/// `clientupdate`, renaming the session's own client, name escaped.
pub fn change_nickname_command(nickname: &str) -> (r: String)
    ensures
        r@ == "clientupdate client_nickname="@ + escape_seq(nickname@) + "\n\r"@,
{
    let mut out = String::from_str("clientupdate client_nickname=");
    let escaped = escape(nickname);
    out.append(escaped.as_str());
    out.append("\n\r");
    out
}

/// `clientgetdbidfromuid`, resolving a unique identifier to a database id.
pub fn get_database_id_command(uid: &str) -> (r: String)
    ensures
        r@ == "clientgetdbidfromuid cluid="@ + uid@ + "\n\r"@,
{
    let mut out = String::from_str("clientgetdbidfromuid cluid=");
    out.append(uid);
    out.append("\n\r");
    out
}

/// `bandel`, removing one ban by id.
pub fn ban_del_command(ban_id: i64) -> (r: String)
    ensures
        r@ == "bandel banid="@ + dec_int(ban_id as int) + "\n\r"@,
{
    let mut out = String::from_str("bandel banid=");
    push_dec_i64(&mut out, ban_id);
    out.append("\n\r");
    out
}

/// `clientinfo`, fetching detailed info for one client.
pub fn client_info_command(client_id: i64) -> (r: String)
    ensures
        r@ == "clientinfo clid="@ + dec_int(client_id as int) + "\n\r"@,
{
    let mut out = String::from_str("clientinfo clid=");
    push_dec_i64(&mut out, client_id);
    out.append("\n\r");
    out
}

} // verus!
