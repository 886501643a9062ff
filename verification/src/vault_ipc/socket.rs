//! Where the agent's socket lives. Paths are texts in the form of a Unix
//! system.
use vstd::prelude::*;
use vstd::string::*;
use crate::text::{
    begins_with, chars_of, content_start, content_start_is, has_prefix, is_space, split_all,
    split_chars, string_of, tail_from,
};
use crate::vault_core::error::prefixed;

verus! {

/// The socket below a directory for run-time files, if there is one, and below
/// the directory for temporary files otherwise, there in a directory of the
/// user's own.
pub open spec fn socket_path(runtime_dir: Option<Seq<char>>, temp_dir: Seq<char>, uid: Seq<char>)
    -> Seq<char> {
    match runtime_dir {
        Some(rt) => joined_path(joined_path(rt, "vault"@), "agent.sock"@),
        None => joined_path(joined_path(temp_dir, "vault-"@ + uid), "agent.sock"@),
    }
}

/// The path of `name` below `dir`.
pub open spec fn joined_path(dir: Seq<char>, name: Seq<char>) -> Seq<char> {
    if dir.len() == 0 || dir.last() == '/' {
        dir + name
    } else {
        dir.push('/') + name
    }
}

/// A path from the root.
pub open spec fn is_absolute(p: Seq<char>) -> bool {
    p.len() > 0 && p[0] == '/'
}

/// The first word of `s`.
pub open spec fn first_word(s: Seq<char>) -> Seq<char> {
    let start = content_start(s, 0);
    s.subrange(start, word_end(s, start))
}

/// The least index from `i` on at which `s` holds white space, or its length.
pub open spec fn word_end(s: Seq<char>, i: int) -> int
    decreases s.len() - i,
{
    if i >= s.len() {
        s.len() as int
    } else if is_space(s[i]) {
        i
    } else {
        word_end(s, i + 1)
    }
}

/// The user's number in a line `Uid:` of a process status, if it is one.
pub open spec fn uid_in_line(line: Seq<char>) -> Option<Seq<char>> {
    if has_prefix(line, "Uid:"@) && first_word(line.skip(4)).len() > 0 {
        Some(first_word(line.skip(4)))
    } else {
        None
    }
}

/// The user's number in the first of `lines` that gives it.
pub open spec fn uid_in_lines(lines: Seq<Seq<char>>, i: int) -> Option<Seq<char>>
    decreases lines.len() - i,
{
    if i >= lines.len() {
        None
    } else {
        match uid_in_line(lines[i]) {
            Some(u) => Some(u),
            None => uid_in_lines(lines, i + 1),
        }
    }
}

/// The path of `name` below `dir`.
pub fn join_path(dir: &str, name: &str) -> (out: String)
    ensures
        out@ == joined_path(dir@, name@),
{
    let chars: Vec<char> = chars_of(dir);
    let mut out: String = dir.to_owned();
    if chars.len() > 0 && chars[chars.len() - 1] != '/' {
        out.push('/');
    }
    out.append(name);
    out
}

/// The default path of the socket.
pub fn default_socket_path(runtime_dir: &Option<String>, temp_dir: &str, uid: &str) -> (out: String)
    ensures
        out@ == socket_path(runtime_dir.deep_view(), temp_dir@, uid@),
{
    let dir: String = match runtime_dir {
        Some(rt) => join_path(rt.as_str(), "vault"),
        None => join_path(temp_dir, prefixed("vault-", uid).as_str()),
    };
    join_path(dir.as_str(), "agent.sock")
}

/// `p` where it is an absolute path.
pub fn sanitize_socket_path(p: &str) -> (r: Option<String>)
    ensures
        r is Some <==> is_absolute(p@),
        r matches Some(q) ==> q@ == p@,
{
    let chars: Vec<char> = chars_of(p);
    if chars.len() == 0 || chars[0] != '/' {
        return None;
    }
    Some(p.to_owned())
}

fn word_of(s: &[char]) -> (out: String)
    ensures
        out@ == first_word(s@),
{
    let mut a: usize = 0;
    while a < s.len() && s[a].is_whitespace()
        invariant
            a <= s.len(),
            content_start(s@, 0) == content_start(s@, a as int),
        decreases s.len() - a,
    {
        a += 1;
    }
    let mut b: usize = a;
    while b < s.len() && !s[b].is_whitespace()
        invariant
            a <= b <= s.len(),
            word_end(s@, a as int) == word_end(s@, b as int),
        decreases s.len() - b,
    {
        b += 1;
    }
    string_of(vstd::slice::slice_subrange(s, a, b))
}

/// The user's number in the text of a process status, `unknown` where it does
/// not give one.
pub fn uid_string(status: &str) -> (out: String)
    ensures
        out@ == (match uid_in_lines(split_all(status@, '\n'), 0) {
            Some(u) => u,
            None => "unknown"@,
        }),
{
    let chars: Vec<char> = chars_of(status);
    let lines: Vec<Vec<char>> = split_chars(chars.as_slice(), '\n');
    let ghost all = split_all(status@, '\n');
    assert(all.len() == lines@.len());
    proof {
        reveal_strlit("Uid:");
    }
    let mut i: usize = 0;
    while i < lines.len()
        invariant
            i <= lines.len(),
            "Uid:"@.len() == 4,
            all == lines@.map_values(|p: Vec<char>| p@),
            all == split_all(status@, '\n'),
            uid_in_lines(all, 0) == uid_in_lines(all, i as int),
        decreases lines.len() - i,
    {
        assert(all[i as int] == lines@[i as int]@);
        let line: &[char] = lines[i].as_slice();
        if begins_with(line, "Uid:") {
            let word: String = word_of(tail_from(line, 4));
            if !word.as_str().is_empty() {
                return word;
            }
        }
        i += 1;
    }
    "unknown".to_owned()
}

/// A path below a directory is the directory, one slash and the name. A slash
/// at the end of the directory makes no difference.
pub proof fn path_is_directory_slash_name(dir: Seq<char>, name: Seq<char>)
    requires
        dir.len() > 0,
        dir.last() != '/',
    ensures
        joined_path(dir, name) == dir + "/"@ + name,
        joined_path(dir + "/"@, name) == joined_path(dir, name),
        joined_path(Seq::empty(), name) == name,
{
    reveal_strlit("/");
    assert(dir + "/"@ =~= dir.push('/'));
    assert(Seq::<char>::empty() + name =~= name);
}

/// The socket is below the directory for run-time files, whatever the other two
/// are. Without one it is below the directory for temporary files, in a
/// directory that bears the user's number, so that two users have two sockets.
pub proof fn socket_is_below_its_directory(
    dir: Seq<char>,
    temp_dir: Seq<char>,
    uid: Seq<char>,
    other: Seq<char>,
)
    requires
        dir.len() > 0,
        dir.last() != '/',
    ensures
        socket_path(Some(dir), temp_dir, uid) == dir + "/vault/agent.sock"@,
        socket_path(None, dir, uid) == dir + "/vault-"@ + uid + "/agent.sock"@ || (uid.len() > 0
            && uid.last() == '/'),
        socket_path(None, dir, uid) == socket_path(None, dir, other) && (uid.len() == 0
            || uid.last() != '/') && (other.len() == 0 || other.last() != '/') ==> uid == other,
{
    reveal_strlit("vault");
    reveal_strlit("agent.sock");
    reveal_strlit("/vault/agent.sock");
    reveal_strlit("vault-");
    reveal_strlit("/vault-");
    reveal_strlit("/agent.sock");
    assert(joined_path(joined_path(dir, "vault"@), "agent.sock"@) =~= dir
        + "/vault/agent.sock"@);
    assert forall|u: Seq<char>| u.len() == 0 || u.last() != '/' implies #[trigger] socket_path(
        None,
        dir,
        u,
    ) == dir + "/vault-"@ + u + "/agent.sock"@ by {
        let below = joined_path(dir, "vault-"@ + u);
        assert(below.last() != '/');
        assert(joined_path(below, "agent.sock"@) =~= dir + "/vault-"@ + u + "/agent.sock"@);
    }
    if socket_path(None, dir, uid) == socket_path(None, dir, other) && (uid.len() == 0
        || uid.last() != '/') && (other.len() == 0 || other.last() != '/') {
        let p = dir + "/vault-"@ + uid + "/agent.sock"@;
        let q = dir + "/vault-"@ + other + "/agent.sock"@;
        assert(p == q);
        assert(p.subrange(dir.len() as int + 7, dir.len() + 7 + uid.len() as int) =~= uid);
        assert(q.subrange(dir.len() as int + 7, dir.len() + 7 + other.len() as int) =~= other);
    }
}

/// The user's number is the first word behind `Uid:` in a line.
pub proof fn number_is_the_first_word(space: Seq<char>, word: Seq<char>, rest: Seq<char>)
    requires
        forall|i: int| 0 <= i < space.len() ==> is_space(#[trigger] space[i]),
        word.len() > 0,
        forall|i: int| 0 <= i < word.len() ==> !is_space(#[trigger] word[i]),
        rest.len() == 0 || is_space(rest[0]),
    ensures
        uid_in_line("Uid:"@ + space + word + rest) == Some(word),
{
    reveal_strlit("Uid:");
    let line = "Uid:"@ + space + word + rest;
    let s = line.skip(4);
    assert(s =~= space + word + rest);
    assert(line.take(4) =~= "Uid:"@);
    let start = space.len() as int;
    assert(s[start] == word[0]);
    content_start_is(s, 0, start);
    let end = start + word.len();
    assert forall|k: int| start <= k < end implies !is_space(#[trigger] s[k]) by {
        assert(s[k] == word[k - start]);
    }
    if rest.len() > 0 {
        assert(s[end] == rest[0]);
    }
    word_end_is(s, start, end);
    assert(s.subrange(start, end) =~= word);
}

/// The number comes from the first line that gives one, and from no line that
/// does not begin with `Uid:`.
pub proof fn number_comes_from_the_first_line(lines: Seq<Seq<char>>, i: int, at: int)
    requires
        0 <= i <= at <= lines.len(),
        forall|k: int| i <= k < at ==> uid_in_line(#[trigger] lines[k]) is None,
    ensures
        at < lines.len() && uid_in_line(lines[at]) is Some ==> uid_in_lines(lines, i)
            == uid_in_line(lines[at]),
        at == lines.len() ==> uid_in_lines(lines, i) is None,
        at < lines.len() && uid_in_line(lines[at]) is Some ==> lines[at].take(4) == "Uid:"@,
    decreases at - i,
{
    reveal_strlit("Uid:");
    if i < at {
        assert(uid_in_line(lines[i]) is None);
        number_comes_from_the_first_line(lines, i + 1, at);
    }
}

proof fn word_end_is(s: Seq<char>, i: int, at: int)
    requires
        0 <= i <= at <= s.len(),
        forall|k: int| i <= k < at ==> !is_space(#[trigger] s[k]),
        at < s.len() ==> is_space(s[at]),
    ensures
        word_end(s, i) == at,
    decreases at - i,
{
    if i < at {
        word_end_is(s, i + 1, at);
    }
}

/// A line that holds nothing but white space behind `Uid:` gives no number, and
/// neither does one that begins otherwise.
pub proof fn empty_lines_give_no_number(space: Seq<char>, line: Seq<char>)
    requires
        forall|i: int| 0 <= i < space.len() ==> is_space(#[trigger] space[i]),
    ensures
        uid_in_line("Uid:"@ + space) is None,
        line.len() < 4 || line.take(4) != "Uid:"@ ==> uid_in_line(line) is None,
{
    reveal_strlit("Uid:");
    let s = ("Uid:"@ + space).skip(4);
    assert(s =~= space);
    content_start_is(s, 0, s.len() as int);
}

} // verus!
