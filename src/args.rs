//! Building the tool's command lines.
//!
//! A connection is named either by a stored profile or by inline
//! parameters. When a profile is named it alone is passed; otherwise each
//! inline parameter that is set becomes a flag followed by its value.
use vstd::prelude::*;

use crate::text::{decimal_text, int_text};

verus! {

/// The connection that an operation is about.
pub struct ConnectionParameters {
    /// A stored profile; when non-empty, every other field is ignored.
    pub profile: String,
    pub host: String,
    pub user: String,
    /// Passed only when positive.
    pub port: i32,
    pub password: String,
    pub key_path: String,
}

/// The texts of a vector of strings.
pub open spec fn texts(v: Seq<String>) -> Seq<Seq<char>> {
    v.map_values(|s: String| s@)
}

/// A flag and its value, or nothing when the value is empty.
pub open spec fn flag_if_set(flag: Seq<char>, value: Seq<char>) -> Seq<Seq<char>> {
    if value.len() == 0 {
        seq![]
    } else {
        seq![flag, value]
    }
}

/// The flags that name a connection: the profile alone when one is named,
/// otherwise host, user, port, password and key, each only when set.
pub open spec fn connection_args(p: ConnectionParameters) -> Seq<Seq<char>> {
    if p.profile@.len() > 0 {
        seq!["--profile"@, p.profile@]
    } else {
        flag_if_set("--host"@, p.host@) + flag_if_set("--user"@, p.user@) + (if p.port > 0 {
            seq!["--port"@, int_text(p.port as int)]
        } else {
            seq![]
        }) + flag_if_set("--password"@, p.password@) + flag_if_set("--key"@, p.key_path@)
    }
}

/// The two paths of a transfer; they are passed as given, even when empty.
pub open spec fn transfer_args(local: Seq<char>, remote: Seq<char>) -> Seq<Seq<char>> {
    seq!["--local"@, local, "--remote"@, remote]
}

/// An interactive session: `connect` and the connection flags.
pub open spec fn connect_args_of(p: ConnectionParameters) -> Seq<Seq<char>> {
    seq!["connect"@] + connection_args(p)
}

/// An upload: `scp upload`, the connection flags and the two paths.
pub open spec fn upload_args_of(
    p: ConnectionParameters,
    local: Seq<char>,
    remote: Seq<char>,
) -> Seq<Seq<char>> {
    seq!["scp"@, "upload"@] + connection_args(p) + transfer_args(local, remote)
}

/// A download: `scp download`, the connection flags and the two paths.
pub open spec fn download_args_of(
    p: ConnectionParameters,
    local: Seq<char>,
    remote: Seq<char>,
) -> Seq<Seq<char>> {
    seq!["scp"@, "download"@] + connection_args(p) + transfer_args(local, remote)
}

/// A new profile always carries host, user and port; password and key
/// only when set.
pub open spec fn profile_add_args_of(
    name: Seq<char>,
    host: Seq<char>,
    user: Seq<char>,
    port: int,
    password: Seq<char>,
    key_path: Seq<char>,
) -> Seq<Seq<char>> {
    seq!["profile"@, "add"@, name, "--host"@, host, "--user"@, user, "--port"@, int_text(port)]
        + flag_if_set("--password"@, password) + flag_if_set("--key"@, key_path)
}

fn push_text(v: &mut Vec<String>, s: &str)
    ensures
        texts(final(v)@) == texts(old(v)@).push(s@),
{
    v.push(String::from_str(s));
    assert(texts(v@) =~= texts(old(v)@).push(s@));
}

fn push_flag(v: &mut Vec<String>, flag: &str, value: &str)
    ensures
        texts(final(v)@) == texts(old(v)@) + seq![flag@, value@],
{
    push_text(v, flag);
    push_text(v, value);
    assert(texts(v@) =~= texts(old(v)@) + seq![flag@, value@]);
}

fn push_flag_if_set(v: &mut Vec<String>, flag: &str, value: &str)
    ensures
        texts(final(v)@) == texts(old(v)@) + flag_if_set(flag@, value@),
{
    if value.is_empty() {
        assert(texts(v@) =~= texts(v@) + flag_if_set(flag@, value@));
    } else {
        push_flag(v, flag, value);
    }
}

fn push_connection(v: &mut Vec<String>, p: &ConnectionParameters)
    ensures
        texts(final(v)@) == texts(old(v)@) + connection_args(*p),
{
    let ghost v0 = texts(v@);
    if !p.profile.as_str().is_empty() {
        push_flag(v, "--profile", p.profile.as_str());
    } else {
        push_flag_if_set(v, "--host", p.host.as_str());
        push_flag_if_set(v, "--user", p.user.as_str());
        if p.port > 0 {
            let port = decimal_text(p.port);
            push_flag(v, "--port", port.as_str());
        } else {
            assert(texts(v@) =~= texts(v@) + seq![]);
        }
        push_flag_if_set(v, "--password", p.password.as_str());
        push_flag_if_set(v, "--key", p.key_path.as_str());
        assert(texts(v@) =~= v0 + connection_args(*p));
    }
}

/// The arguments that open an interactive session.
pub fn connect_args(p: &ConnectionParameters) -> (r: Vec<String>)
    ensures
        texts(r@) == connect_args_of(*p),
{
    let mut v: Vec<String> = Vec::new();
    push_text(&mut v, "connect");
    push_connection(&mut v, p);
    assert(texts(v@) =~= connect_args_of(*p));
    v
}

/// The arguments that copy a local file to the remote host.
pub fn upload_args(p: &ConnectionParameters, local_path: &str, remote_path: &str) -> (r: Vec<
    String,
>)
    ensures
        texts(r@) == upload_args_of(*p, local_path@, remote_path@),
{
    let mut v: Vec<String> = Vec::new();
    push_text(&mut v, "scp");
    push_text(&mut v, "upload");
    push_connection(&mut v, p);
    push_flag(&mut v, "--local", local_path);
    push_flag(&mut v, "--remote", remote_path);
    assert(texts(v@) =~= upload_args_of(*p, local_path@, remote_path@));
    v
}

/// The arguments that copy a remote file to the local machine.
pub fn download_args(p: &ConnectionParameters, local_path: &str, remote_path: &str) -> (r: Vec<
    String,
>)
    ensures
        texts(r@) == download_args_of(*p, local_path@, remote_path@),
{
    let mut v: Vec<String> = Vec::new();
    push_text(&mut v, "scp");
    push_text(&mut v, "download");
    push_connection(&mut v, p);
    push_flag(&mut v, "--local", local_path);
    push_flag(&mut v, "--remote", remote_path);
    assert(texts(v@) =~= download_args_of(*p, local_path@, remote_path@));
    v
}

/// The arguments that list the stored profiles.
pub fn profile_list_args() -> (r: Vec<String>)
    ensures
        texts(r@) == seq!["profile"@, "list"@],
{
    let mut v: Vec<String> = Vec::new();
    push_text(&mut v, "profile");
    push_text(&mut v, "list");
    assert(texts(v@) =~= seq!["profile"@, "list"@]);
    v
}

/// The arguments that store a new profile.
pub fn profile_add_args(
    name: &str,
    host: &str,
    user: &str,
    port: i32,
    password: &str,
    key_path: &str,
) -> (r: Vec<String>)
    ensures
        texts(r@) == profile_add_args_of(name@, host@, user@, port as int, password@, key_path@),
{
    let mut v: Vec<String> = Vec::new();
    push_text(&mut v, "profile");
    push_text(&mut v, "add");
    push_text(&mut v, name);
    push_flag(&mut v, "--host", host);
    push_flag(&mut v, "--user", user);
    let port_text = decimal_text(port);
    push_flag(&mut v, "--port", port_text.as_str());
    push_flag_if_set(&mut v, "--password", password);
    push_flag_if_set(&mut v, "--key", key_path);
    assert(texts(v@) =~= profile_add_args_of(
        name@,
        host@,
        user@,
        port as int,
        password@,
        key_path@,
    ));
    v
}

/// The arguments that remove a stored profile.
pub fn profile_delete_args(name: &str) -> (r: Vec<String>)
    ensures
        texts(r@) == seq!["profile"@, "delete"@, name@],
{
    let mut v: Vec<String> = Vec::new();
    push_text(&mut v, "profile");
    push_text(&mut v, "delete");
    push_text(&mut v, name);
    assert(texts(v@) =~= seq!["profile"@, "delete"@, name@]);
    v
}

/// The `k`-th flag of a list of flag and value pairs.
pub open spec fn flag_at(args: Seq<Seq<char>>, k: int) -> Seq<char> {
    args[2 * k]
}

/// Whether `flag` stands at a flag position of a list of flag and value
/// pairs (a value that happens to read like a flag does not count).
pub open spec fn has_flag(args: Seq<Seq<char>>, flag: Seq<char>) -> bool {
    exists|k: int| 0 <= k < args.len() / 2 && #[trigger] flag_at(args, k) == flag
}

/// Whether `flag` stands at a flag position, followed by `value`.
pub open spec fn passes(args: Seq<Seq<char>>, flag: Seq<char>, value: Seq<char>) -> bool {
    exists|k: int|
        0 <= k < args.len() / 2 && #[trigger] flag_at(args, k) == flag && args[2 * k + 1]
            == value
}

proof fn lemma_pairs_concat(a: Seq<Seq<char>>, b: Seq<Seq<char>>, flag: Seq<char>, value: Seq<char>)
    requires
        a.len() % 2 == 0,
        b.len() % 2 == 0,
    ensures
        (a + b).len() % 2 == 0,
        has_flag(a + b, flag) == (has_flag(a, flag) || has_flag(b, flag)),
        passes(a + b, flag, value) == (passes(a, flag, value) || passes(b, flag, value)),
{
    let c = a + b;
    let m = a.len() / 2;
    assert(c.len() / 2 == m + b.len() / 2);
    if has_flag(c, flag) {
        let k = choose|k: int| 0 <= k < c.len() / 2 && #[trigger] flag_at(c, k) == flag;
        if k < m {
            assert(flag_at(a, k) == flag_at(c, k));
        } else {
            assert(flag_at(b, k - m) == flag_at(c, k));
        }
    }
    if has_flag(a, flag) {
        let k = choose|k: int| 0 <= k < a.len() / 2 && #[trigger] flag_at(a, k) == flag;
        assert(flag_at(c, k) == flag_at(a, k));
    }
    if has_flag(b, flag) {
        let k = choose|k: int| 0 <= k < b.len() / 2 && #[trigger] flag_at(b, k) == flag;
        assert(flag_at(c, k + m) == flag_at(b, k));
    }
    if passes(c, flag, value) {
        let k = choose|k: int|
            0 <= k < c.len() / 2 && #[trigger] flag_at(c, k) == flag && c[2 * k + 1] == value;
        if k < m {
            assert(flag_at(a, k) == flag_at(c, k));
        } else {
            assert(flag_at(b, k - m) == flag_at(c, k));
            assert(b[2 * (k - m) + 1] == c[2 * k + 1]);
        }
    }
    if passes(a, flag, value) {
        let k = choose|k: int|
            0 <= k < a.len() / 2 && #[trigger] flag_at(a, k) == flag && a[2 * k + 1] == value;
        assert(flag_at(c, k) == flag_at(a, k));
    }
    if passes(b, flag, value) {
        let k = choose|k: int|
            0 <= k < b.len() / 2 && #[trigger] flag_at(b, k) == flag && b[2 * k + 1] == value;
        assert(flag_at(c, k + m) == flag_at(b, k));
        assert(c[2 * (k + m) + 1] == b[2 * k + 1]);
    }
}

proof fn lemma_pair(f: Seq<char>, v: Seq<char>, flag: Seq<char>, value: Seq<char>)
    ensures
        has_flag(seq![f, v], flag) == (f == flag),
        passes(seq![f, v], flag, value) == (f == flag && v == value),
        !has_flag(seq![], flag),
        !passes(seq![], flag, value),
{
    assert(flag_at(seq![f, v], 0) == f);
}

proof fn lemma_flag_if_set(f: Seq<char>, v: Seq<char>, flag: Seq<char>, value: Seq<char>)
    ensures
        flag_if_set(f, v).len() % 2 == 0,
        has_flag(flag_if_set(f, v), flag) == (v.len() > 0 && f == flag),
        passes(flag_if_set(f, v), flag, value) == (v.len() > 0 && f == flag && v == value),
{
    lemma_pair(f, v, flag, value);
}

proof fn lemma_flag_names_distinct()
    ensures
        "--profile"@ != "--host"@,
        "--profile"@ != "--user"@,
        "--profile"@ != "--port"@,
        "--profile"@ != "--password"@,
        "--profile"@ != "--key"@,
        "--host"@ != "--user"@,
        "--host"@ != "--port"@,
        "--host"@ != "--password"@,
        "--host"@ != "--key"@,
        "--user"@ != "--port"@,
        "--user"@ != "--password"@,
        "--user"@ != "--key"@,
        "--port"@ != "--password"@,
        "--port"@ != "--key"@,
        "--password"@ != "--key"@,
{
    reveal_strlit("--profile");
    reveal_strlit("--host");
    reveal_strlit("--user");
    reveal_strlit("--port");
    reveal_strlit("--password");
    reveal_strlit("--key");
    assert("--profile"@.len() == 9);
    assert("--password"@.len() == 10);
    assert("--port"@.len() == 6);
    assert("--host"@[2] != "--user"@[2]);
    assert("--host"@[2] != "--port"@[2]);
    assert("--user"@[2] != "--port"@[2]);
}

/// A named profile takes precedence: the connection flags are then
/// `--profile <name>` and nothing else, so none of host, user, port,
/// password or key is passed.
pub proof fn lemma_profile_takes_precedence(p: ConnectionParameters)
    requires
        p.profile@.len() > 0,
    ensures
        connection_args(p) == seq!["--profile"@, p.profile@],
        passes(connection_args(p), "--profile"@, p.profile@),
        !has_flag(connection_args(p), "--host"@),
        !has_flag(connection_args(p), "--user"@),
        !has_flag(connection_args(p), "--port"@),
        !has_flag(connection_args(p), "--password"@),
        !has_flag(connection_args(p), "--key"@),
{
    lemma_flag_names_distinct();
    let v = p.profile@;
    lemma_pair("--profile"@, v, "--profile"@, v);
    lemma_pair("--profile"@, v, "--host"@, v);
    lemma_pair("--profile"@, v, "--user"@, v);
    lemma_pair("--profile"@, v, "--port"@, v);
    lemma_pair("--profile"@, v, "--password"@, v);
    lemma_pair("--profile"@, v, "--key"@, v);
}

/// Without a profile, each inline parameter is passed exactly when it is
/// set: host, user, password and key when non-empty, the port when
/// positive, each followed by its value; no profile flag is passed.
pub proof fn lemma_inline_flags_when_set(p: ConnectionParameters)
    requires
        p.profile@.len() == 0,
    ensures
        has_flag(connection_args(p), "--host"@) == (p.host@.len() > 0),
        has_flag(connection_args(p), "--user"@) == (p.user@.len() > 0),
        has_flag(connection_args(p), "--port"@) == (p.port > 0),
        has_flag(connection_args(p), "--password"@) == (p.password@.len() > 0),
        has_flag(connection_args(p), "--key"@) == (p.key_path@.len() > 0),
        !has_flag(connection_args(p), "--profile"@),
        p.host@.len() > 0 ==> passes(connection_args(p), "--host"@, p.host@),
        p.user@.len() > 0 ==> passes(connection_args(p), "--user"@, p.user@),
        p.port > 0 ==> passes(connection_args(p), "--port"@, int_text(p.port as int)),
        p.password@.len() > 0 ==> passes(connection_args(p), "--password"@, p.password@),
        p.key_path@.len() > 0 ==> passes(connection_args(p), "--key"@, p.key_path@),
{
    lemma_flag_names_distinct();
    let port_part: Seq<Seq<char>> = if p.port > 0 {
        seq!["--port"@, int_text(p.port as int)]
    } else {
        seq![]
    };
    let a = flag_if_set("--host"@, p.host@);
    let b = flag_if_set("--user"@, p.user@);
    let d = flag_if_set("--password"@, p.password@);
    let e = flag_if_set("--key"@, p.key_path@);
    assert(connection_args(p) == a + b + port_part + d + e);
    lemma_inline_flag(a, b, port_part, d, e, p, "--host"@, p.host@);
    lemma_inline_flag(a, b, port_part, d, e, p, "--user"@, p.user@);
    lemma_inline_flag(a, b, port_part, d, e, p, "--port"@, int_text(p.port as int));
    lemma_inline_flag(a, b, port_part, d, e, p, "--password"@, p.password@);
    lemma_inline_flag(a, b, port_part, d, e, p, "--key"@, p.key_path@);
    lemma_inline_flag(a, b, port_part, d, e, p, "--profile"@, p.profile@);
}

proof fn lemma_inline_flag(
    a: Seq<Seq<char>>,
    b: Seq<Seq<char>>,
    c: Seq<Seq<char>>,
    d: Seq<Seq<char>>,
    e: Seq<Seq<char>>,
    p: ConnectionParameters,
    flag: Seq<char>,
    value: Seq<char>,
)
    requires
        a == flag_if_set("--host"@, p.host@),
        b == flag_if_set("--user"@, p.user@),
        c == (if p.port > 0 {
            seq!["--port"@, int_text(p.port as int)]
        } else {
            seq![]
        }),
        d == flag_if_set("--password"@, p.password@),
        e == flag_if_set("--key"@, p.key_path@),
    ensures
        has_flag(a + b + c + d + e, flag) == (has_flag(a, flag) || has_flag(b, flag) || has_flag(
            c,
            flag,
        ) || has_flag(d, flag) || has_flag(e, flag)),
        passes(a + b + c + d + e, flag, value) == (passes(a, flag, value) || passes(b, flag, value)
            || passes(c, flag, value) || passes(d, flag, value) || passes(e, flag, value)),
        has_flag(a, flag) == (p.host@.len() > 0 && "--host"@ == flag),
        has_flag(b, flag) == (p.user@.len() > 0 && "--user"@ == flag),
        has_flag(c, flag) == (p.port > 0 && "--port"@ == flag),
        has_flag(d, flag) == (p.password@.len() > 0 && "--password"@ == flag),
        has_flag(e, flag) == (p.key_path@.len() > 0 && "--key"@ == flag),
        passes(a, flag, value) == (p.host@.len() > 0 && "--host"@ == flag && p.host@ == value),
        passes(b, flag, value) == (p.user@.len() > 0 && "--user"@ == flag && p.user@ == value),
        passes(c, flag, value) == (p.port > 0 && "--port"@ == flag && int_text(p.port as int)
            == value),
        passes(d, flag, value) == (p.password@.len() > 0 && "--password"@ == flag && p.password@
            == value),
        passes(e, flag, value) == (p.key_path@.len() > 0 && "--key"@ == flag && p.key_path@
            == value),
{
    lemma_flag_if_set("--host"@, p.host@, flag, value);
    lemma_flag_if_set("--user"@, p.user@, flag, value);
    lemma_flag_if_set("--password"@, p.password@, flag, value);
    lemma_flag_if_set("--key"@, p.key_path@, flag, value);
    lemma_pair("--port"@, int_text(p.port as int), flag, value);
    lemma_pairs_concat(a, b, flag, value);
    lemma_pairs_concat(a + b, c, flag, value);
    lemma_pairs_concat(a + b + c, d, flag, value);
    lemma_pairs_concat(a + b + c + d, e, flag, value);
}

} // verus!
