use vstd::prelude::*;
use vstd::array::*;
use vstd::string::*;
use vstd::utf8::*;

use crate::text::{decimal, push_decimal};

verus! {

/// Size of each fixed text field of a node's statistics.
pub const NODE_FIELD_SIZE: usize = 32;

/// Who runs a node: its user and host names, each as UTF-8 padded with
/// zero bytes to a fixed size.
#[derive(Debug, Clone, Copy, PartialEq, Eq)]
pub struct NodeStats {
    pub username: [u8; 32],
    pub hostname: [u8; 32],
}

/// Whether the text of the fixed field `bytes` ends at `n`: `n` is the
/// index of its first zero byte, or its length when it has none.
pub open spec fn text_end(bytes: Seq<u8>, n: int) -> bool {
    &&& 0 <= n <= bytes.len()
    &&& n < bytes.len() ==> bytes[n] == 0
    &&& forall|i: int| 0 <= i < n ==> bytes[i] != 0
}

/// The text a fixed field holds: its bytes up to the first zero, decoded as
/// UTF-8, or the empty text when they are not valid UTF-8.
pub open spec fn fixed_text(bytes: Seq<u8>) -> Seq<char> {
    let n = choose|n: int| text_end(bytes, n);
    if valid_utf8(bytes.take(n)) {
        decode_utf8(bytes.take(n))
    } else {
        Seq::empty()
    }
}

/// The fixed field holding `bytes`: those bytes, then zeros up to the
/// field's size.
pub open spec fn fixed_field(bytes: Seq<u8>) -> Seq<u8> {
    bytes + Seq::new((NODE_FIELD_SIZE - bytes.len()) as nat, |i: int| 0u8)
}

/// A field's text ends at one place only.
proof fn lemma_text_end_unique(bytes: Seq<u8>, n: int, m: int)
    requires
        text_end(bytes, n),
        text_end(bytes, m),
    ensures
        n == m,
{
    if n < m {
        assert(bytes[n] != 0);
    } else if m < n {
        assert(bytes[m] != 0);
    }
}

/// `std::str::from_utf8`: the text whose UTF-8 encoding is `bytes`, or
/// `None` when `bytes` is not valid UTF-8.
#[verifier::external_body]
fn str_from_utf8<'a>(bytes: &'a [u8]) -> (r: Option<&'a str>)
    ensures
        r is Some <==> valid_utf8(bytes@),
        r matches Some(s) ==> s@ == decode_utf8(bytes@),
{
    match std::str::from_utf8(bytes) {
        Ok(s) => Some(s),
        Err(_) => None,
    }
}

/// The text held by the fixed field `bytes`: the bytes before the first
/// zero byte, or the empty text when they are not valid UTF-8.
pub fn from_fixed(bytes: &[u8]) -> (r: &str)
    ensures
        r@ == fixed_text(bytes@),
{
    let mut len: usize = 0;
    while len < bytes.len() && bytes[len] != 0
        invariant
            len <= bytes@.len(),
            forall|i: int| 0 <= i < len ==> bytes@[i] != 0,
        decreases bytes@.len() - len,
    {
        len = len + 1;
    }
    proof {
        assert(text_end(bytes@, len as int));
        let n = choose|n: int| text_end(bytes@, n);
        lemma_text_end_unique(bytes@, n, len as int);
    }
    let prefix = vstd::slice::slice_subrange(bytes, 0, len);
    assert(prefix@ =~= bytes@.take(len as int));
    match str_from_utf8(prefix) {
        Some(s) => s,
        None => {
            proof {
                reveal_strlit("");
            }
            ""
        },
    }
}

/// The fixed field holding `s`, which must fit in it.
pub fn as_fixed(s: &str) -> (r: [u8; 32])
    requires
        s.spec_bytes().len() <= NODE_FIELD_SIZE,
    ensures
        r@ == fixed_field(s.spec_bytes()),
{
    let bytes = s.as_bytes();
    let mut buff: [u8; 32] = array_fill_for_copy_types(0u8);
    let mut i: usize = 0;
    while i < bytes.len()
        invariant
            i <= bytes@.len(),
            bytes@ == s.spec_bytes(),
            bytes@.len() <= 32,
            buff@.len() == 32,
            forall|j: int| 0 <= j < i ==> buff@[j] == bytes@[j],
            forall|j: int| i <= j < 32 ==> buff@[j] == 0,
        decreases bytes@.len() - i,
    {
        buff.set(i, bytes[i]);
        i = i + 1;
    }
    assert(buff@ =~= fixed_field(s.spec_bytes()));
    buff
}

/// A text that fits in a fixed field and holds no zero byte reads back
/// unchanged from the field.
pub proof fn lemma_fixed_round_trip(s: &str)
    requires
        s.spec_bytes().len() <= NODE_FIELD_SIZE,
        forall|i: int| 0 <= i < s.spec_bytes().len() ==> s.spec_bytes()[i] != 0,
    ensures
        fixed_text(fixed_field(s.spec_bytes())) == s@,
{
    let b = s.spec_bytes();
    let f = fixed_field(b);
    let n = b.len() as int;
    assert(text_end(f, n));
    let m = choose|m: int| text_end(f, m);
    lemma_text_end_unique(f, m, n);
    assert(f.take(n) =~= b);
    encode_utf8_valid_utf8(s@);
    encode_utf8_decode_utf8(s@);
}

/// The bytes a node's statistics are sent as: its user name field, then
/// its host name field.
pub open spec fn node_bytes_spec(n: NodeStats) -> Seq<u8> {
    n.username@ + n.hostname@
}

/// The bytes a node's statistics are sent as.
pub fn node_bytes(n: &NodeStats) -> (r: Vec<u8>)
    ensures
        r@ == node_bytes_spec(*n),
{
    let mut out: Vec<u8> = Vec::new();
    let mut i: usize = 0;
    while i < NODE_FIELD_SIZE
        invariant
            i <= NODE_FIELD_SIZE,
            n.username@.len() == 32,
            out@ == n.username@.take(i as int),
        decreases NODE_FIELD_SIZE - i,
    {
        out.push(n.username[i]);
        i = i + 1;
        assert(out@ =~= n.username@.take(i as int));
    }
    let mut j: usize = 0;
    while j < NODE_FIELD_SIZE
        invariant
            j <= NODE_FIELD_SIZE,
            n.username@.len() == 32,
            n.hostname@.len() == 32,
            out@ == n.username@ + n.hostname@.take(j as int),
        decreases NODE_FIELD_SIZE - j,
    {
        out.push(n.hostname[j]);
        j = j + 1;
        assert(out@ =~= n.username@ + n.hostname@.take(j as int));
    }
    assert(n.hostname@.take(32) =~= n.hostname@);
    out
}

/// The node statistics sent as `bytes`, or `None` when they are not the
/// size of two fixed fields.
pub fn node_from_bytes(bytes: &[u8]) -> (r: Option<NodeStats>)
    ensures
        r is Some <==> bytes@.len() == 2 * NODE_FIELD_SIZE,
        r matches Some(n) ==> node_bytes_spec(n) == bytes@,
{
    if bytes.len() != 2 * NODE_FIELD_SIZE {
        return None;
    }
    let mut username: [u8; 32] = array_fill_for_copy_types(0u8);
    let mut hostname: [u8; 32] = array_fill_for_copy_types(0u8);
    let mut i: usize = 0;
    while i < NODE_FIELD_SIZE
        invariant
            i <= NODE_FIELD_SIZE,
            bytes@.len() == 64,
            username@.len() == 32,
            hostname@.len() == 32,
            forall|k: int| 0 <= k < i ==> username@[k] == bytes@[k],
            forall|k: int| 0 <= k < i ==> hostname@[k] == bytes@[k + 32],
        decreases NODE_FIELD_SIZE - i,
    {
        username.set(i, bytes[i]);
        hostname.set(i, bytes[i + NODE_FIELD_SIZE]);
        i = i + 1;
    }
    let n = NodeStats { username, hostname };
    assert(node_bytes_spec(n) =~= bytes@);
    Some(n)
}

/// How a node is shown: its user name, an at sign, its host name.
pub open spec fn display_text(stats: NodeStats) -> Seq<char> {
    fixed_text(stats.username@) + seq!['@'] + fixed_text(stats.hostname@)
}

/// Shows a node as `user@host`.
pub fn display(stats: &NodeStats) -> (r: String)
    ensures
        r@ == display_text(*stats),
{
    let username = from_fixed(stats.username.as_slice());
    let hostname = from_fixed(stats.hostname.as_slice());
    let mut s = String::from_str(username);
    proof {
        reveal_strlit("@");
    }
    s.append("@");
    s.append(hostname);
    assert(s@ =~= display_text(*stats));
    s
}

/// `nix::unistd::getuid`: the real user ID of this process.
#[verifier::external_body]
fn getuid() -> u32 {
    nix::unistd::getuid().as_raw()
}

/// `nix::unistd::User::from_uid`: the name of the user `uid` as the user
/// database has it, or `None` when it has no such user or cannot be read.
/// The database is outside the library, so nothing more is stated.
#[verifier::external_body]
fn user_name(uid: u32) -> Option<String> {
    match nix::unistd::User::from_uid(nix::unistd::Uid::from_raw(uid)) {
        Ok(Some(user)) => Some(user.name),
        Ok(None) => None,
        Err(_) => None,
    }
}

/// `nix::unistd::gethostname`: the host name, with bytes that are not
/// UTF-8 replaced, or `None` when it cannot be read. The host name is
/// outside the library, so nothing more is stated.
#[verifier::external_body]
fn gethostname() -> Option<String> {
    match nix::unistd::gethostname() {
        Ok(name) => Some(name.to_string_lossy().to_string()),
        Err(_) => None,
    }
}

/// The user name to show for the user `uid`: the user database's `name`
/// for it, or the user ID in decimal when it has none.
pub fn username_or_uid(uid: u32, name: Option<String>) -> (r: String)
    ensures
        r@ == (match name {
            Some(n) => n@,
            None => decimal(uid as nat),
        }),
{
    match name {
        Some(n) => n,
        None => {
            let mut s = String::new();
            push_decimal(&mut s, uid as u64);
            assert(s@ =~= decimal(uid as nat));
            s
        },
    }
}

/// The name of the user running this process, or its user ID in decimal
/// when the user database has no name for it.
pub fn get_username() -> String {
    let uid = getuid();
    username_or_uid(uid, user_name(uid))
}

/// The host name, or the empty text when it cannot be read.
pub fn get_hostname() -> String {
    match gethostname() {
        Some(name) => name,
        None => String::new(),
    }
}

/// The statistics of a node run by `username` on `hostname`, or `None` when
/// either name does not fit in a fixed field.
pub fn node_stats(username: &str, hostname: &str) -> (r: Option<NodeStats>)
    ensures
        r is Some <==> username.spec_bytes().len() <= NODE_FIELD_SIZE
            && hostname.spec_bytes().len() <= NODE_FIELD_SIZE,
        r matches Some(stats) ==> stats.username@ == fixed_field(username.spec_bytes())
            && stats.hostname@ == fixed_field(hostname.spec_bytes()),
{
    if username.as_bytes().len() <= NODE_FIELD_SIZE && hostname.as_bytes().len()
        <= NODE_FIELD_SIZE {
        Some(NodeStats { username: as_fixed(username), hostname: as_fixed(hostname) })
    } else {
        None
    }
}

/// Whether `n` holds the user name `u` and the host name `h`, each
/// encoded as UTF-8 that fits in a fixed field.
pub open spec fn holds_names(n: NodeStats, u: Seq<char>, h: Seq<char>) -> bool {
    &&& encode_utf8(u).len() <= NODE_FIELD_SIZE
    &&& encode_utf8(h).len() <= NODE_FIELD_SIZE
    &&& n.username@ == fixed_field(encode_utf8(u))
    &&& n.hostname@ == fixed_field(encode_utf8(h))
}

/// Whether `r` is what the user name `u` and the host name `h` give: the
/// node's statistics holding both, or `None` exactly when either does not
/// fit in a fixed field.
pub open spec fn names_give(r: Option<NodeStats>, u: Seq<char>, h: Seq<char>) -> bool {
    &&& (r is None <==> encode_utf8(u).len() > NODE_FIELD_SIZE || encode_utf8(h).len()
        > NODE_FIELD_SIZE)
    &&& (r matches Some(n) ==> holds_names(n, u, h))
}

/// This node's statistics, or `None` when its user or host name does not
/// fit in a fixed field. The names themselves come from the system.
pub fn get() -> (r: Option<NodeStats>)
    ensures
        exists|u: Seq<char>, h: Seq<char>| #[trigger] names_give(r, u, h),
{
    let username = get_username();
    let hostname = get_hostname();
    let u = username.as_str();
    let h = hostname.as_str();
    let r = node_stats(u, h);
    assert(names_give(r, u@, h@));
    r
}

} // verus!
