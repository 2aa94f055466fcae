//! Parsing of console input: the server's administrative command line and the
//! client's chat prompt.
//!
//! A command line is trimmed of surrounding whitespace; its first
//! whitespace-separated token names the command and the rest carries the
//! arguments. Whitespace here is the ASCII kind: space, tab, carriage return
//! and line feed.

use vstd::prelude::*;
use vstd::string::StrSliceExecFns;

verus! {

/// ASCII whitespace.
pub open spec fn is_space(c: char) -> bool {
    c == ' ' || c == '\t' || c == '\n' || c == '\r'
}

/// The first index at or after `from` holding a non-space, or the length.
pub open spec fn first_nonspace(s: Seq<char>, from: int) -> int
    decreases s.len() - from,
{
    if from < 0 || from >= s.len() {
        s.len() as int
    } else if !is_space(s[from]) {
        from
    } else {
        first_nonspace(s, from + 1)
    }
}

/// The first index at or after `from` holding a space, or the length.
pub open spec fn first_space(s: Seq<char>, from: int) -> int
    decreases s.len() - from,
{
    if from < 0 || from >= s.len() {
        s.len() as int
    } else if is_space(s[from]) {
        from
    } else {
        first_space(s, from + 1)
    }
}

/// One past the last non-space of `s`, or zero when `s` is all space.
pub open spec fn last_nonspace_end(s: Seq<char>) -> int
    decreases s.len(),
{
    if s.len() == 0 {
        0
    } else if !is_space(s.last()) {
        s.len() as int
    } else {
        last_nonspace_end(s.drop_last())
    }
}

/// `s` without leading and trailing whitespace.
pub open spec fn trim_of(s: Seq<char>) -> Seq<char> {
    if first_nonspace(s, 0) == s.len() {
        Seq::empty()
    } else {
        s.subrange(first_nonspace(s, 0), last_nonspace_end(s))
    }
}

/// Scanning bounds: the scanners stay within `[from, s.len()]`, stop at what
/// they seek, and pass only what they skip.
pub proof fn lemma_scan_bounds(s: Seq<char>, from: int)
    requires
        0 <= from <= s.len(),
    ensures
        from <= first_nonspace(s, from) <= s.len(),
        first_nonspace(s, from) < s.len() ==> !is_space(s[first_nonspace(s, from)]),
        forall|i: int| from <= i < first_nonspace(s, from) ==> is_space(#[trigger] s[i]),
        from <= first_space(s, from) <= s.len(),
        first_space(s, from) < s.len() ==> is_space(s[first_space(s, from)]),
        forall|i: int| from <= i < first_space(s, from) ==> !is_space(#[trigger] s[i]),
    decreases s.len() - from,
{
    if from < s.len() {
        lemma_scan_bounds(s, from + 1);
    }
}

/// Bounds of the right-hand scan: it ends within the sequence, just past a
/// non-space unless the sequence is all space, and only spaces follow it.
pub proof fn lemma_rscan_bounds(s: Seq<char>)
    ensures
        0 <= last_nonspace_end(s) <= s.len(),
        last_nonspace_end(s) > 0 ==> !is_space(s[last_nonspace_end(s) - 1]),
        forall|i: int| last_nonspace_end(s) <= i < s.len() ==> is_space(#[trigger] s[i]),
    decreases s.len(),
{
    if s.len() > 0 && is_space(s.last()) {
        lemma_rscan_bounds(s.drop_last());
        assert forall|i: int| last_nonspace_end(s) <= i < s.len() implies is_space(
            #[trigger] s[i],
        ) by {
            if i < s.len() - 1 {
                assert(s.drop_last()[i] == s[i]);
            }
        }
    }
}

/// A non-space at `i` keeps the right-hand scan beyond `i`.
pub proof fn lemma_rscan_past_nonspace(s: Seq<char>, i: int)
    requires
        0 <= i < s.len(),
        !is_space(s[i]),
    ensures
        last_nonspace_end(s) > i,
    decreases s.len(),
{
    if s.len() > 0 && is_space(s.last()) {
        assert(s.drop_last()[i] == s[i]);
        lemma_rscan_past_nonspace(s.drop_last(), i);
    }
}

/// The left-hand scans agree between a sequence and its tail: scanning the
/// subrange from `e` at offset `k` is scanning the whole from `e + k`.
pub proof fn lemma_scan_shift(s: Seq<char>, e: int, k: int)
    requires
        0 <= e <= s.len(),
        0 <= k <= s.len() - e,
    ensures
        first_nonspace(s.subrange(e, s.len() as int), k) == first_nonspace(s, e + k) - e,
        first_space(s.subrange(e, s.len() as int), k) == first_space(s, e + k) - e,
    decreases s.len() - e - k,
{
    let sub = s.subrange(e, s.len() as int);
    if k < sub.len() {
        assert(sub[k] == s[e + k]);
        lemma_scan_shift(s, e, k + 1);
    }
}

/// The right-hand scan of a tail whose last character is not a space is that
/// tail's length, so trimming a tail of a right-trimmed sequence only strips
/// leading spaces.
pub proof fn lemma_trim_of_tail(s: Seq<char>, e: int)
    requires
        0 <= e <= s.len(),
        s.len() > 0 ==> !is_space(s[s.len() - 1]),
    ensures
        trim_of(s.subrange(e, s.len() as int)) == s.subrange(first_nonspace(s, e), s.len() as int),
{
    let sub = s.subrange(e, s.len() as int);
    lemma_scan_shift(s, e, 0);
    lemma_scan_bounds(s, e);
    if first_nonspace(s, e) == s.len() {
        assert(trim_of(sub) =~= s.subrange(first_nonspace(s, e), s.len() as int));
    } else {
        assert(sub.len() > 0);
        assert(sub[sub.len() - 1] == s[s.len() - 1]);
        assert(last_nonspace_end(sub) == sub.len());
        assert(trim_of(sub) =~= s.subrange(first_nonspace(s, e), s.len() as int));
    }
}

/// The first non-space at or after `from`, or the length; mirrors
/// `first_nonspace`.
fn find_nonspace(s: &str, from: usize) -> (r: usize)
    requires
        from <= s@.len(),
    ensures
        r == first_nonspace(s@, from as int),
        from <= r <= s@.len(),
    decreases s@.len() - from,
{
    let n = s.unicode_len();
    if from >= n {
        n
    } else {
        let c = s.get_char(from);
        if !(c == ' ' || c == '\t' || c == '\n' || c == '\r') {
            from
        } else {
            find_nonspace(s, from + 1)
        }
    }
}

/// The first space at or after `from`, or the length; mirrors `first_space`.
fn find_space(s: &str, from: usize) -> (r: usize)
    requires
        from <= s@.len(),
    ensures
        r == first_space(s@, from as int),
        from <= r <= s@.len(),
    decreases s@.len() - from,
{
    let n = s.unicode_len();
    if from >= n {
        n
    } else {
        let c = s.get_char(from);
        if c == ' ' || c == '\t' || c == '\n' || c == '\r' {
            from
        } else {
            find_space(s, from + 1)
        }
    }
}

/// One past the last non-space before `upto`; mirrors `last_nonspace_end` of
/// the prefix of length `upto`.
fn find_end(s: &str, upto: usize) -> (r: usize)
    requires
        upto <= s@.len(),
    ensures
        r == last_nonspace_end(s@.subrange(0, upto as int)),
        r <= upto,
    decreases upto,
{
    proof {
        let pre = s@.subrange(0, upto as int);
        if upto > 0 {
            assert(pre.last() == s@[upto - 1]);
            assert(pre.drop_last() =~= s@.subrange(0, upto - 1));
        }
    }
    if upto == 0 {
        0
    } else {
        let c = s.get_char(upto - 1);
        if !(c == ' ' || c == '\t' || c == '\n' || c == '\r') {
            upto
        } else {
            find_end(s, upto - 1)
        }
    }
}

/// Whether two strings read the same.
fn str_eq(a: &str, b: &str) -> (r: bool)
    ensures
        r == (a@ == b@),
{
    let n = a.unicode_len();
    if n != b.unicode_len() {
        return false;
    }
    let mut i: usize = 0;
    while i < n
        invariant
            n == a@.len() == b@.len(),
            i <= n,
            forall|k: int| 0 <= k < i ==> a@[k] == b@[k],
        decreases n - i,
    {
        if a.get_char(i) != b.get_char(i) {
            return false;
        }
        i += 1;
    }
    proof {
        assert(a@ =~= b@);
    }
    true
}


/// A decimal digit.
pub open spec fn is_digit(c: char) -> bool {
    48 <= c as u32 <= 57
}

/// A digit's value.
pub open spec fn digit_val(c: char) -> int {
    c as u32 - 48
}

/// How many consecutive digits stand at or after `from`.
pub open spec fn digits_run(s: Seq<char>, from: int) -> int
    decreases s.len() - from,
{
    if from < 0 || from >= s.len() || !is_digit(s[from]) {
        0
    } else {
        1 + digits_run(s, from + 1)
    }
}

/// The value of the `n` digits starting at `from`, most significant first.
pub open spec fn num_val(s: Seq<char>, from: int, n: int) -> int
    decreases n,
{
    if n <= 0 {
        0
    } else {
        num_val(s, from, n - 1) * 10 + digit_val(s[from + n - 1])
    }
}

/// A digit run stays in bounds and is made of digits.
pub proof fn lemma_digits_run(s: Seq<char>, from: int)
    requires
        0 <= from <= s.len(),
    ensures
        0 <= digits_run(s, from) <= s.len() - from,
        forall|i: int| from <= i < from + digits_run(s, from) ==> is_digit(#[trigger] s[i]),
    decreases s.len() - from,
{
    if from < s.len() && is_digit(s[from]) {
        lemma_digits_run(s, from + 1);
    }
}

/// One dotted-quad octet read at `from`: its value and the index after it.
/// An octet is one to three digits, without a leading zero unless it is the
/// single digit zero, valuing at most 255.
pub open spec fn octet_at(s: Seq<char>, from: int) -> Option<(u8, int)> {
    let n = digits_run(s, from);
    if n < 1 || n > 3 {
        None
    } else if n > 1 && s[from] as u32 == 48 {
        None
    } else if num_val(s, from, n) > 255 {
        None
    } else {
        Some((num_val(s, from, n) as u8, from + n))
    }
}

/// What `s` reads as an IPv4 address in dotted-quad notation, if anything:
/// four octets separated by single dots, nothing before or after.
pub open spec fn spec_parse_ipv4(s: Seq<char>) -> Option<IpAddress> {
    match octet_at(s, 0) {
        None => None,
        Some((a, p1)) => if p1 < s.len() && s[p1] == '.' {
            match octet_at(s, p1 + 1) {
                None => None,
                Some((b, p2)) => if p2 < s.len() && s[p2] == '.' {
                    match octet_at(s, p2 + 1) {
                        None => None,
                        Some((c, p3)) => if p3 < s.len() && s[p3] == '.' {
                            match octet_at(s, p3 + 1) {
                                None => None,
                                Some((d, p4)) => if p4 == s.len() {
                                    Some(IpAddress { a, b, c, d })
                                } else {
                                    None
                                },
                            }
                        } else {
                            None
                        },
                    }
                } else {
                    None
                },
            }
        } else {
            None
        },
    }
}

/// An IPv4 address as four octets. Textual addresses are read and shown in
/// dotted-quad notation; no other address family is understood here.
#[derive(Debug, Clone, Copy, PartialEq, Eq, Structural)]
pub struct IpAddress {
    pub a: u8,
    pub b: u8,
    pub c: u8,
    pub d: u8,
}

/// How many consecutive digits stand at or after `from`; mirrors
/// `digits_run`.
fn scan_digits(s: &str, from: usize) -> (n: usize)
    requires
        from <= s@.len(),
    ensures
        n == digits_run(s@, from as int),
        n <= s@.len() - from,
    decreases s@.len() - from,
{
    let len = s.unicode_len();
    if from >= len {
        0
    } else {
        let c = s.get_char(from) as u32;
        if 48 <= c && c <= 57 {
            1 + scan_digits(s, from + 1)
        } else {
            0
        }
    }
}

/// One dotted-quad octet read at `from`; mirrors `octet_at`.
fn scan_octet(s: &str, from: usize) -> (r: Option<(u8, usize)>)
    requires
        from <= s@.len(),
    ensures
        r matches Some((v, p)) ==> octet_at(s@, from as int) == Some((v, p as int)) && from < p
            <= s@.len(),
        r is None ==> octet_at(s@, from as int) is None,
{
    let len = s.unicode_len();
    let n = scan_digits(s, from);
    proof {
        lemma_digits_run(s@, from as int);
    }
    if n < 1 || n > 3 {
        return None;
    }
    assert(from + n <= len);
    proof {
        assert(is_digit(s@[from as int]));
        if n >= 2 {
            assert(is_digit(s@[from + 1]));
        }
        if n >= 3 {
            assert(is_digit(s@[from + 2]));
        }
    }
    let d0 = s.get_char(from) as u32;
    if n > 1 && d0 == 48 {
        return None;
    }
    let v: u32 = if n == 1 {
        d0 - 48
    } else if n == 2 {
        (d0 - 48) * 10 + (s.get_char(from + 1) as u32 - 48)
    } else {
        (d0 - 48) * 100 + (s.get_char(from + 1) as u32 - 48) * 10 + (s.get_char(from + 2) as u32
            - 48)
    };
    proof {
        assert(num_val(s@, from as int, 0) == 0);
        assert(num_val(s@, from as int, 1) == digit_val(s@[from as int]));
        assert(num_val(s@, from as int, 2) == num_val(s@, from as int, 1) * 10 + digit_val(
            s@[from + 1],
        ));
        assert(num_val(s@, from as int, 3) == num_val(s@, from as int, 2) * 10 + digit_val(
            s@[from + 2],
        ));
        assert(v == num_val(s@, from as int, n as int));
    }
    if v > 255 {
        None
    } else {
        Some((v as u8, from + n))
    }
}

/// Reads `s` as a dotted-quad IPv4 address; mirrors `spec_parse_ipv4`.
pub fn parse_ipv4(s: &str) -> (r: Option<IpAddress>)
    ensures
        r == spec_parse_ipv4(s@),
{
    let len = s.unicode_len();
    match scan_octet(s, 0) {
        None => None,
        Some((a, p1)) => {
            if p1 < len && s.get_char(p1) == '.' {
                match scan_octet(s, p1 + 1) {
                    None => None,
                    Some((b, p2)) => {
                        if p2 < len && s.get_char(p2) == '.' {
                            match scan_octet(s, p2 + 1) {
                                None => None,
                                Some((c, p3)) => {
                                    if p3 < len && s.get_char(p3) == '.' {
                                        match scan_octet(s, p3 + 1) {
                                            None => None,
                                            Some((d, p4)) => {
                                                if p4 == len {
                                                    Some(IpAddress { a, b, c, d })
                                                } else {
                                                    None
                                                }
                                            },
                                        }
                                    } else {
                                        None
                                    }
                                },
                            }
                        } else {
                            None
                        }
                    },
                }
            } else {
                None
            }
        },
    }
}

/// What console input can fail with: a read failure, or a line that is no
/// known command.
#[derive(Debug, Clone, Copy, PartialEq, Eq, Structural)]
pub enum UserInputError {
    IoError,
    InvalidCommand,
}

/// One line of the client's prompt: a command, or a chat message to send.
#[derive(Debug)]
pub enum UserInput {
    Help,
    Message(String),
    Quit,
}

/// One administrative command of the server console.
#[derive(Debug)]
pub enum ServerUserInput {
    Help,
    ListUsers,
    Kick(String),
    Rename { old_name: String, new_name: String },
    Ban(String),
    BanIp(IpAddress),
    Unban(IpAddress),
    BanList,
    Quit,
}

impl UserInput {
    /// Reads one line of the client prompt: `/quit` and `/help` by their
    /// first whitespace-separated token, anything else as a chat message
    /// carrying the trimmed line.
    pub fn from_line(value: &str) -> (r: UserInput)
        ensures
            ({
                let t = trim_of(value@);
                let cmd = t.subrange(0, first_space(t, 0));
                &&& (cmd == "/quit"@ ==> r is Quit)
                &&& (cmd == "/help"@ ==> r is Help)
                &&& (!(cmd == "/quit"@ || cmd == "/help"@) ==> (r matches UserInput::Message(m)
                    && m@ == t))
            }),
    {
        proof {
            reveal_strlit("/quit");
            reveal_strlit("/help");
            assert("/quit"@[1] == 'q' && "/help"@[1] == 'h');
        }
        let n = value.unicode_len();
        let a = find_nonspace(value, 0);
        let b = find_end(value, n);
        proof {
            assert(value@.subrange(0, n as int) =~= value@);
            lemma_scan_bounds(value@, 0);
            lemma_rscan_bounds(value@);
            if a < n {
                lemma_rscan_past_nonspace(value@, a as int);
            }
        }
        if a >= b {
            proof {
                assert(trim_of(value@) =~= Seq::<char>::empty());
                assert(trim_of(value@).subrange(0, first_space(trim_of(value@), 0)) =~= Seq::<
                    char,
                >::empty());
            }
            let u = value.substring_char(a, a).to_owned();
            proof {
                assert(u@ =~= trim_of(value@));
            }
            return UserInput::Message(u);
        }
        let t = value.substring_char(a, b);
        proof {
            assert(t@ == trim_of(value@));
        }
        let e = find_space(t, 0);
        let cmd = t.substring_char(0, e);
        if str_eq(cmd, "/quit") {
            UserInput::Quit
        } else if str_eq(cmd, "/help") {
            UserInput::Help
        } else {
            UserInput::Message(t.to_owned())
        }
    }
}


/// The command a token names.
#[derive(Debug, Clone, Copy, PartialEq, Eq, Structural)]
enum CmdKind {
    Quit,
    List,
    Help,
    Kick,
    Rename,
    Ban,
    Unban,
    BanList,
    Other,
}

/// Which command the first token names; the common commands have a one-letter
/// alias.
fn classify(cmd: &str) -> (k: CmdKind)
    ensures
        (k is Quit) == (cmd@ == "/quit"@ || cmd@ == "/q"@),
        (k is List) == (cmd@ == "/list"@ || cmd@ == "/l"@),
        (k is Help) == (cmd@ == "/help"@ || cmd@ == "/h"@),
        (k is Kick) == (cmd@ == "/kick"@ || cmd@ == "/k"@),
        (k is Rename) == (cmd@ == "/rename"@),
        (k is Ban) == (cmd@ == "/ban"@),
        (k is Unban) == (cmd@ == "/unban"@),
        (k is BanList) == (cmd@ == "/banlist"@),
{
    proof {
        reveal_strlit("/quit");
        reveal_strlit("/q");
        reveal_strlit("/list");
        reveal_strlit("/l");
        reveal_strlit("/help");
        reveal_strlit("/h");
        reveal_strlit("/kick");
        reveal_strlit("/k");
        reveal_strlit("/rename");
        reveal_strlit("/ban");
        reveal_strlit("/unban");
        reveal_strlit("/banlist");
        assert("/quit"@[1] == 'q' && "/list"@[1] == 'l' && "/help"@[1] == 'h' && "/kick"@[1]
            == 'k');
        assert("/q"@[1] == 'q' && "/l"@[1] == 'l' && "/h"@[1] == 'h' && "/k"@[1] == 'k');
        assert("/quit"@.len() == 5 && "/list"@.len() == 5 && "/help"@.len() == 5 && "/kick"@.len()
            == 5);
        assert("/q"@.len() == 2 && "/l"@.len() == 2 && "/h"@.len() == 2 && "/k"@.len() == 2);
        assert("/rename"@.len() == 7 && "/ban"@.len() == 4 && "/unban"@.len() == 6
            && "/banlist"@.len() == 8);
    }
    if str_eq(cmd, "/quit") || str_eq(cmd, "/q") {
        CmdKind::Quit
    } else if str_eq(cmd, "/list") || str_eq(cmd, "/l") {
        CmdKind::List
    } else if str_eq(cmd, "/help") || str_eq(cmd, "/h") {
        CmdKind::Help
    } else if str_eq(cmd, "/kick") || str_eq(cmd, "/k") {
        CmdKind::Kick
    } else if str_eq(cmd, "/rename") {
        CmdKind::Rename
    } else if str_eq(cmd, "/ban") {
        CmdKind::Ban
    } else if str_eq(cmd, "/unban") {
        CmdKind::Unban
    } else if str_eq(cmd, "/banlist") {
        CmdKind::BanList
    } else {
        CmdKind::Other
    }
}

impl ServerUserInput {
    /// Reads one administrative command line. The trimmed line's first
    /// whitespace-separated token names the command, with a one-letter alias
    /// for the most common ones; `/kick` takes the rest of the line, trimmed,
    /// as the name to kick; `/rename` takes exactly two names; `/ban` and
    /// `/unban` take one target, banning by IPv4 address when the target
    /// reads as one and by display name otherwise, while unbanning only by
    /// address. Anything else — an empty line included — is no command.
    #[verifier::rlimit(60)]
    pub fn try_from(value: &str) -> (r: Result<ServerUserInput, UserInputError>)
        ensures
            ({
                let t = trim_of(value@);
                let e = first_space(t, 0);
                let cmd = t.subrange(0, e);
                let arg = trim_of(t.subrange(e, t.len() as int));
                let target = arg.subrange(0, first_space(arg, 0));
                &&& ((cmd == "/quit"@ || cmd == "/q"@) ==> r == Ok::<
                    ServerUserInput,
                    UserInputError,
                >(ServerUserInput::Quit))
                &&& ((cmd == "/list"@ || cmd == "/l"@) ==> r == Ok::<
                    ServerUserInput,
                    UserInputError,
                >(ServerUserInput::ListUsers))
                &&& ((cmd == "/help"@ || cmd == "/h"@) ==> r == Ok::<
                    ServerUserInput,
                    UserInputError,
                >(ServerUserInput::Help))
                &&& ((cmd == "/kick"@ || cmd == "/k"@) ==> (if arg.len() == 0 {
                    r == Err::<ServerUserInput, UserInputError>(UserInputError::InvalidCommand)
                } else {
                    r matches Ok(v) && (v matches ServerUserInput::Kick(u) && u@ == arg)
                }))
                &&& (cmd == "/rename"@ ==> ({
                    let m = first_space(arg, 0);
                    let rest = trim_of(arg.subrange(m, arg.len() as int));
                    if arg.len() == 0 || rest.len() == 0 || first_space(rest, 0) != rest.len() {
                        r == Err::<ServerUserInput, UserInputError>(UserInputError::InvalidCommand)
                    } else {
                        r matches Ok(v) && (v matches ServerUserInput::Rename {
                            old_name,
                            new_name,
                        } && old_name@ == arg.subrange(0, m) && new_name@ == rest)
                    }
                }))
                &&& (cmd == "/ban"@ ==> (if target.len() == 0 {
                    r == Err::<ServerUserInput, UserInputError>(UserInputError::InvalidCommand)
                } else {
                    match spec_parse_ipv4(target) {
                        Some(ip) => r == Ok::<ServerUserInput, UserInputError>(
                            ServerUserInput::BanIp(ip),
                        ),
                        None => r matches Ok(v) && (v matches ServerUserInput::Ban(u) && u@
                            == target),
                    }
                }))
                &&& (cmd == "/unban"@ ==> (match spec_parse_ipv4(target) {
                    Some(ip) => r == Ok::<ServerUserInput, UserInputError>(
                        ServerUserInput::Unban(ip),
                    ),
                    None => r == Err::<ServerUserInput, UserInputError>(
                        UserInputError::InvalidCommand,
                    ),
                }))
                &&& (cmd == "/banlist"@ ==> r == Ok::<ServerUserInput, UserInputError>(
                    ServerUserInput::BanList,
                ))
                &&& (!(cmd == "/quit"@ || cmd == "/q"@ || cmd == "/list"@ || cmd == "/l"@ || cmd
                    == "/help"@ || cmd == "/h"@ || cmd == "/kick"@ || cmd == "/k"@ || cmd
                    == "/rename"@ || cmd == "/ban"@ || cmd == "/unban"@ || cmd == "/banlist"@)
                    ==> r == Err::<ServerUserInput, UserInputError>(UserInputError::InvalidCommand))
            }),
    {
        let n = value.unicode_len();
        let a = find_nonspace(value, 0);
        let b = find_end(value, n);
        proof {
            assert(value@.subrange(0, n as int) =~= value@);
            lemma_scan_bounds(value@, 0);
            lemma_rscan_bounds(value@);
            if a < n {
                lemma_rscan_past_nonspace(value@, a as int);
            }
        }
        if a >= b {
            proof {
                reveal_strlit("/quit");
                reveal_strlit("/q");
                reveal_strlit("/list");
                reveal_strlit("/l");
                reveal_strlit("/help");
                reveal_strlit("/h");
                reveal_strlit("/kick");
                reveal_strlit("/k");
                reveal_strlit("/rename");
                reveal_strlit("/ban");
                reveal_strlit("/unban");
                reveal_strlit("/banlist");
                assert(trim_of(value@) =~= Seq::<char>::empty());
                assert(trim_of(value@).subrange(0, first_space(trim_of(value@), 0)) =~= Seq::<
                    char,
                >::empty());
            }
            return Err(UserInputError::InvalidCommand);
        }
        let t = value.substring_char(a, b);
        proof {
            assert(t@ == trim_of(value@));
        }
        let tn = t.unicode_len();
        let e = find_space(t, 0);
        let cmd = t.substring_char(0, e);
        let a2 = find_nonspace(t, e);
        proof {
            assert(t@[t@.len() - 1] == value@[b - 1]);
            lemma_trim_of_tail(t@, e as int);
            lemma_scan_bounds(t@, e as int);
            lemma_scan_bounds(t@, a2 as int);
        }
        let ghost argseq = t@.subrange(a2 as int, tn as int);
        match classify(cmd) {
            CmdKind::Quit => Ok(ServerUserInput::Quit),
            CmdKind::List => Ok(ServerUserInput::ListUsers),
            CmdKind::Help => Ok(ServerUserInput::Help),
            CmdKind::Kick => {
                if a2 >= tn {
                    Err(UserInputError::InvalidCommand)
                } else {
                    Ok(ServerUserInput::Kick(t.substring_char(a2, tn).to_owned()))
                }
            },
            CmdKind::Rename => {
            if a2 >= tn {
                return Err(UserInputError::InvalidCommand);
            }
            let m = find_space(t, a2);
            let a3 = find_nonspace(t, m);
            let m2 = find_space(t, a3);
            proof {
                lemma_scan_shift(t@, a2 as int, 0);
                lemma_scan_shift(t@, a2 as int, m - a2);
                lemma_trim_of_tail(argseq, m - a2);
                lemma_scan_shift(argseq, m - a2, a3 - m);
                assert(argseq.subrange(m - a2, argseq.len() as int) =~= t@.subrange(
                    m as int,
                    tn as int,
                ));
                assert(trim_of(argseq.subrange(m - a2, argseq.len() as int)) =~= t@.subrange(
                    a3 as int,
                    tn as int,
                ));
                lemma_scan_shift(t@, a3 as int, 0);
            }
            if a3 >= tn || m2 < tn {
                Err(UserInputError::InvalidCommand)
            } else {
                proof {
                    assert(argseq.subrange(0, m - a2) =~= t@.subrange(a2 as int, m as int));
                }
                Ok(
                    ServerUserInput::Rename {
                        old_name: t.substring_char(a2, m).to_owned(),
                        new_name: t.substring_char(a3, tn).to_owned(),
                    },
                )
            }
            },
            CmdKind::Ban => {
                if a2 >= tn {
                    return Err(UserInputError::InvalidCommand);
                }
                let m = find_space(t, a2);
                proof {
                    lemma_scan_shift(t@, a2 as int, 0);
                    assert(argseq.subrange(0, m - a2) =~= t@.subrange(a2 as int, m as int));
                }
                let target = t.substring_char(a2, m);
                match parse_ipv4(target) {
                    Some(ip) => Ok(ServerUserInput::BanIp(ip)),
                    None => Ok(ServerUserInput::Ban(target.to_owned())),
                }
            },
            CmdKind::Unban => {
                if a2 >= tn {
                    return Err(UserInputError::InvalidCommand);
                }
                let m = find_space(t, a2);
                proof {
                    lemma_scan_shift(t@, a2 as int, 0);
                    assert(argseq.subrange(0, m - a2) =~= t@.subrange(a2 as int, m as int));
                }
                let target = t.substring_char(a2, m);
                match parse_ipv4(target) {
                    Some(ip) => Ok(ServerUserInput::Unban(ip)),
                    None => Err(UserInputError::InvalidCommand),
                }
            },
            CmdKind::BanList => Ok(ServerUserInput::BanList),
            CmdKind::Other => Err(UserInputError::InvalidCommand),
        }
    }
}

} // verus!
