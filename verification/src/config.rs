//! Settings read from environment variables: how each variable's text is
//! read, and what it defaults to when absent or unreadable.
use vstd::prelude::*;
use crate::text::{
    digit_value, is_digit_char, lemma_digit_char, lemma_nat_decimal_digits, nat_decimal, parse_i32, spec_parse_i32,
    str_eq,
};
use crate::types::ExecutorConfig;
use crate::views::{opt_str_view, owned, str_vec_view};

verus! {

// ---------------------------------------------------------------------------
// Reading numbers and flags
// ---------------------------------------------------------------------------

/// The value of a string of decimal digits.
pub open spec fn digits_value(d: Seq<char>) -> nat
    decreases d.len(),
{
    if d.len() == 0 {
        0
    } else {
        digits_value(d.drop_last()) * 10 + (digit_value(d.last()) as nat)
    }
}

pub open spec fn all_digits(d: Seq<char>) -> bool {
    forall|i: int| 0 <= i < d.len() ==> is_digit_char(#[trigger] d[i])
}

/// The digits of an unsigned number's text: the text after an optional `+`.
pub open spec fn unsigned_digits(s: Seq<char>) -> Seq<char> {
    if s.len() > 0 && s[0] == '+' {
        s.drop_first()
    } else {
        s
    }
}

/// What `str::parse` gives for an unsigned integer type whose largest value
/// is `max`: the number, when `s` is an optional `+` and at least one
/// decimal digit and the number is at most `max`.
pub open spec fn spec_parse_unsigned(s: Seq<char>, max: nat) -> Option<nat> {
    let d = unsigned_digits(s);
    if d.len() > 0 && all_digits(d) && digits_value(d) <= max {
        Some(digits_value(d))
    } else {
        None
    }
}

proof fn lemma_digits_value_grows(d: Seq<char>, j: int)
    requires
        all_digits(d),
        0 <= j <= d.len(),
    ensures
        digits_value(d.take(j)) <= digits_value(d),
    decreases d.len() - j,
{
    if j < d.len() {
        lemma_digits_value_grows(d, j + 1);
        assert(d.take(j + 1).drop_last() =~= d.take(j));
        assert(is_digit_char(d[j]));
    } else {
        assert(d.take(j) =~= d);
    }
}

proof fn lemma_digits_value_of_decimal(n: nat)
    ensures
        all_digits(nat_decimal(n)),
        digits_value(nat_decimal(n)) == n,
    decreases n,
{
    lemma_nat_decimal_digits(n);
    lemma_digit_char((n % 10) as int);
    let d = nat_decimal(n);
    if n >= 10 {
        lemma_digits_value_of_decimal(n / 10);
        assert(d.drop_last() =~= nat_decimal(n / 10));
        assert(d.last() == crate::text::digit_char((n % 10) as int));
        assert(digits_value(d) == digits_value(nat_decimal(n / 10)) * 10 + (n % 10));
        assert((n / 10) * 10 + n % 10 == n);
    } else {
        assert(n % 10 == n);
        assert(d.drop_last() =~= Seq::<char>::empty());
        assert(d.last() == crate::text::digit_char(n as int));
    }
}

/// A number written in decimal, without a sign, reads back as that number
/// when it is at most `max`.
pub proof fn law_unsigned_decimal_reads_back(n: nat, max: nat)
    requires
        n <= max,
    ensures
        spec_parse_unsigned(nat_decimal(n), max) == Some(n),
{
    lemma_digits_value_of_decimal(n);
    assert(is_digit_char(nat_decimal(n)[0]));
}

/// Reads an unsigned number of at most `max`, as `str::parse` reads one for
/// an unsigned type whose largest value is `max`.
pub fn parse_unsigned(s: &str, max: u64) -> (r: Option<u64>)
    ensures
        match r {
            Some(n) => spec_parse_unsigned(s@, max as nat) == Some(n as nat),
            None => spec_parse_unsigned(s@, max as nat) is None,
        },
{
    let len = s.unicode_len();
    let start: usize = if len > 0 && s.get_char(0) == '+' {
        1
    } else {
        0
    };
    let ghost d = unsigned_digits(s@);
    assert(d =~= s@.subrange(start as int, len as int));
    if start >= len {
        return None;
    }
    let mut acc: u64 = 0;
    let mut i: usize = start;
    while i < len
        invariant
            len == s@.len(),
            start <= i <= len,
            d == s@.subrange(start as int, len as int),
            d == unsigned_digits(s@),
            forall|j: int| 0 <= j < i - start ==> is_digit_char(#[trigger] d[j]),
            acc as nat == digits_value(d.take(i - start)),
            acc <= max,
        decreases len - i,
    {
        let c = s.get_char(i);
        assert(d[i - start] == c);
        if !('0' <= c && c <= '9') {
            assert(!is_digit_char(d[i - start]));
            return None;
        }
        let digit = (c as u32 - '0' as u32) as u128;
        let next: u128 = (acc as u128) * 10 + digit;
        assert(d.take(i - start + 1).drop_last() =~= d.take(i - start));
        assert(next == digits_value(d.take(i - start + 1)));
        if next > max as u128 {
            proof {
                if all_digits(d) {
                    lemma_digits_value_grows(d, i - start + 1);
                    assert(digits_value(d) > max);
                }
            }
            return None;
        }
        acc = next as u64;
        i = i + 1;
    }
    assert(d.take(len - start) =~= d);
    Some(acc)
}

/// The number that `s` writes as an `i32`, or `default` when it writes
/// none (`s.parse::<i32>().unwrap_or(default)`).
pub fn parse_i32_or(s: &str, default: i32) -> (n: i32)
    ensures
        match spec_parse_i32(s@) {
            Ok(v) => n as int == v,
            Err(_) => n == default,
        },
{
    match parse_i32(s) {
        Ok(v) => v,
        Err(_) => default,
    }
}

/// The flag that `s` writes (`true` or `false`, exactly), if any.
pub fn parse_bool(s: &str) -> (r: Option<bool>)
    ensures
        r == (if s@ == "true"@ {
            Some(true)
        } else if s@ == "false"@ {
            Some(false)
        } else {
            None
        }),
{
    if str_eq(s, "true") {
        Some(true)
    } else if str_eq(s, "false") {
        Some(false)
    } else {
        None
    }
}

/// The code of `c` with an ASCII upper-case letter made lower case.
pub open spec fn ascii_lower(c: char) -> int {
    if 'A' <= c && c <= 'Z' {
        (c as int) + 32
    } else {
        c as int
    }
}

/// `a` and `b` are the same text but for the case of ASCII letters.
pub open spec fn eq_ignore_ascii_case(a: Seq<char>, b: Seq<char>) -> bool {
    a.len() == b.len() && forall|i: int| 0 <= i < a.len() ==> ascii_lower(#[trigger] a[i]) == ascii_lower(b[i])
}

fn lower(c: char) -> (l: u32)
    ensures
        l == ascii_lower(c),
{
    if 'A' <= c && c <= 'Z' {
        c as u32 + 32
    } else {
        c as u32
    }
}

/// Whether `a` and `b` are the same text but for the case of ASCII letters
/// (`str::eq_ignore_ascii_case`).
pub fn str_eq_ignore_ascii_case(a: &str, b: &str) -> (r: bool)
    ensures
        r == eq_ignore_ascii_case(a@, b@),
{
    let n = a.unicode_len();
    if n != b.unicode_len() {
        return false;
    }
    let mut i: usize = 0;
    while i < n
        invariant
            n == a@.len(),
            n == b@.len(),
            i <= n,
            forall|j: int| 0 <= j < i ==> ascii_lower(#[trigger] a@[j]) == ascii_lower(b@[j]),
        decreases n - i,
    {
        if lower(a.get_char(i)) != lower(b.get_char(i)) {
            return false;
        }
        i = i + 1;
    }
    true
}

// ---------------------------------------------------------------------------
// Splitting lists
// ---------------------------------------------------------------------------

/// The pieces of `s` between commas (`str::split(',')`): one more piece
/// than there are commas, empty pieces included.
pub open spec fn split_commas(s: Seq<char>) -> Seq<Seq<char>>
    decreases s.len(),
{
    if s.len() == 0 {
        seq![Seq::<char>::empty()]
    } else {
        let r = split_commas(s.drop_last());
        if s.last() == ',' {
            r.push(Seq::<char>::empty())
        } else {
            r.update(r.len() - 1, r.last().push(s.last()))
        }
    }
}

/// A character of the Unicode `White_Space` property, which is what
/// `char::is_whitespace` and `str::trim` go by.
pub open spec fn unicode_white_space(c: char) -> bool {
    ||| ('\t' <= c && c <= '\r')
    ||| c == ' '
    ||| c == '\u{85}'
    ||| c == '\u{a0}'
    ||| c == '\u{1680}'
    ||| ('\u{2000}' <= c && c <= '\u{200a}')
    ||| c == '\u{2028}'
    ||| c == '\u{2029}'
    ||| c == '\u{202f}'
    ||| c == '\u{205f}'
    ||| c == '\u{3000}'
}

/// `s` without its leading white space.
pub open spec fn trim_start(s: Seq<char>) -> Seq<char>
    decreases s.len(),
{
    if s.len() > 0 && unicode_white_space(s[0]) {
        trim_start(s.drop_first())
    } else {
        s
    }
}

/// `s` without its trailing white space.
pub open spec fn trim_end(s: Seq<char>) -> Seq<char>
    decreases s.len(),
{
    if s.len() > 0 && unicode_white_space(s.last()) {
        trim_end(s.drop_last())
    } else {
        s
    }
}

/// What `str::trim` gives for `s`: `s` without leading and trailing
/// white space.
pub open spec fn trimmed(s: Seq<char>) -> Seq<char> {
    trim_end(trim_start(s))
}

/// Whether `c` is a `White_Space` character.
fn is_white_space(c: char) -> (b: bool)
    ensures
        b == unicode_white_space(c),
{
    ('\t' <= c && c <= '\r') || c == ' ' || c == '\u{85}' || c == '\u{a0}' || c == '\u{1680}' || ('\u{2000}'
        <= c && c <= '\u{200a}') || c == '\u{2028}' || c == '\u{2029}' || c == '\u{202f}' || c == '\u{205f}' || c
        == '\u{3000}'
}

proof fn lemma_trim_start_skip(s: Seq<char>, a: int)
    requires
        0 <= a <= s.len(),
        forall|i: int| 0 <= i < a ==> unicode_white_space(#[trigger] s[i]),
    ensures
        trim_start(s) == trim_start(s.subrange(a, s.len() as int)),
    decreases a,
{
    if a == 0 {
        assert(s.subrange(0, s.len() as int) =~= s);
    } else {
        let t = s.drop_first();
        assert forall|i: int| 0 <= i < a - 1 implies unicode_white_space(#[trigger] t[i]) by {
            assert(t[i] == s[i + 1]);
        }
        lemma_trim_start_skip(t, a - 1);
        assert(t.subrange(a - 1, t.len() as int) =~= s.subrange(a, s.len() as int));
    }
}

proof fn lemma_trim_end_skip(s: Seq<char>, b: int)
    requires
        0 <= b <= s.len(),
        forall|i: int| b <= i < s.len() ==> unicode_white_space(#[trigger] s[i]),
    ensures
        trim_end(s) == trim_end(s.subrange(0, b)),
    decreases s.len() - b,
{
    if b == s.len() {
        assert(s.subrange(0, b) =~= s);
    } else {
        let t = s.drop_last();
        assert forall|i: int| b <= i < t.len() implies unicode_white_space(#[trigger] t[i]) by {
            assert(t[i] == s[i]);
        }
        lemma_trim_end_skip(t, b);
        assert(t.subrange(0, b) =~= s.subrange(0, b));
    }
}

/// What `str::trim` gives for `s` (its documentation states it): `s`
/// without leading and trailing `White_Space` characters.
fn trim(s: &str) -> (r: &str)
    ensures
        r@ == trimmed(s@),
{
    let n = s.unicode_len();
    let mut a: usize = 0;
    while a < n
        invariant
            a <= n,
            n == s@.len(),
            forall|i: int| 0 <= i < a ==> unicode_white_space(#[trigger] s@[i]),
        ensures
            a <= n,
            forall|i: int| 0 <= i < a ==> unicode_white_space(#[trigger] s@[i]),
            a < n ==> !unicode_white_space(s@[a as int]),
        decreases n - a,
    {
        if !is_white_space(s.get_char(a)) {
            break;
        }
        a = a + 1;
    }
    let mut b: usize = n;
    while b > a
        invariant
            a <= b <= n,
            n == s@.len(),
            forall|i: int| b <= i < n ==> unicode_white_space(#[trigger] s@[i]),
        ensures
            a <= b <= n,
            forall|i: int| b <= i < n ==> unicode_white_space(#[trigger] s@[i]),
            b > a ==> !unicode_white_space(s@[b - 1]),
        decreases b - a,
    {
        if !is_white_space(s.get_char(b - 1)) {
            break;
        }
        b = b - 1;
    }
    proof {
        let t = s@.subrange(a as int, n as int);
        lemma_trim_start_skip(s@, a as int);
        if a < n {
            assert(!unicode_white_space(s@[a as int]));
            assert(t[0] == s@[a as int]);
        }
        assert(trim_start(t) == t);
        assert forall|i: int| b - a <= i < t.len() implies unicode_white_space(#[trigger] t[i]) by {
            assert(t[i] == s@[a + i]);
        }
        lemma_trim_end_skip(t, b - a);
        let u = t.subrange(0, b - a);
        assert(u =~= s@.subrange(a as int, b as int));
        if b > a {
            assert(!unicode_white_space(s@[b - 1]));
            assert(u.last() == s@[b - 1]);
        }
        assert(trim_end(u) == u);
    }
    s.substring_char(a, b)
}

/// Splits `s` at its commas.
pub fn split_commas_exec(s: &str) -> (v: Vec<String>)
    ensures
        str_vec_view(v) == split_commas(s@),
{
    let n = s.unicode_len();
    let mut pieces: Vec<String> = Vec::new();
    let mut start: usize = 0;
    let mut i: usize = 0;
    assert(s@.take(0) =~= Seq::<char>::empty());
    assert(s@.subrange(0, 0) =~= Seq::<char>::empty());
    assert(str_vec_view(pieces) =~= Seq::<Seq<char>>::empty());
    while i < n
        invariant
            n == s@.len(),
            start <= i <= n,
            split_commas(s@.take(i as int)) == str_vec_view(pieces).push(s@.subrange(start as int, i as int)),
        decreases n - i,
    {
        let c = s.get_char(i);
        let ghost prev = s@.take(i as int);
        assert(s@.take(i + 1).drop_last() =~= prev);
        assert(s@.take(i + 1).last() == c);
        if c == ',' {
            let piece = s.substring_char(start, i);
            pieces.push(owned(piece));
            assert(str_vec_view(pieces) =~= str_vec_view(pieces).take(pieces.len() - 1).push(piece@));
            assert(s@.subrange(i + 1, i + 1) =~= Seq::<char>::empty());
            start = i + 1;
        } else {
            assert(s@.subrange(start as int, i + 1) =~= s@.subrange(start as int, i as int).push(c));
        }
        assert(split_commas(s@.take(i + 1)) =~= str_vec_view(pieces).push(s@.subrange(start as int, i + 1)));
        i = i + 1;
    }
    let last = s.substring_char(start, n);
    pieces.push(owned(last));
    assert(s@.take(n as int) =~= s@);
    assert(str_vec_view(pieces) =~= split_commas(s@));
    pieces
}

/// The topics of `EXECUTOR_TOPICS`: the comma-separated pieces, trimmed.
pub open spec fn topic_list(s: Seq<char>) -> Seq<Seq<char>> {
    split_commas(s).map_values(|p: Seq<char>| trimmed(p))
}

/// Reads a comma-separated list of topics.
pub fn parse_topics(s: &str) -> (v: Vec<String>)
    ensures
        str_vec_view(v) == topic_list(s@),
{
    let pieces = split_commas_exec(s);
    let mut topics: Vec<String> = Vec::new();
    let mut i: usize = 0;
    while i < pieces.len()
        invariant
            i <= pieces.len(),
            str_vec_view(pieces) == split_commas(s@),
            str_vec_view(topics) == split_commas(s@).take(i as int).map_values(|p: Seq<char>| trimmed(p)),
        decreases pieces.len() - i,
    {
        let t = trim(pieces[i].as_str());
        let ghost before = str_vec_view(topics);
        topics.push(owned(t));
        assert(str_vec_view(topics) =~= before.push(t@));
        assert(pieces[i as int]@ == split_commas(s@)[i as int]);
        assert(split_commas(s@).take(i + 1).map_values(|p: Seq<char>| trimmed(p)) =~= split_commas(s@).take(
            i as int,
        ).map_values(|p: Seq<char>| trimmed(p)).push(trimmed(split_commas(s@)[i as int])));
        assert(str_vec_view(topics) =~= split_commas(s@).take(i + 1).map_values(|p: Seq<char>| trimmed(p)));
        i = i + 1;
    }
    assert(split_commas(s@).take(pieces.len() as int) =~= split_commas(s@));
    topics
}

// ---------------------------------------------------------------------------
// Executor and database settings
// ---------------------------------------------------------------------------

/// The text of an environment variable, or `default` when it is unset.
pub open spec fn or_default(v: Option<String>, default: Seq<char>) -> Seq<char> {
    match v {
        Some(s) => s@,
        None => default,
    }
}

pub(crate) fn text_or(v: &Option<String>, default: &str) -> (s: String)
    ensures
        s@ == or_default(*v, default@),
{
    match v {
        Some(s) => s.clone(),
        None => owned(default),
    }
}

/// The executor settings from the values of `EXECUTOR_TOPICS` (default
/// `default`), `EXECUTOR_POLL_INTERVAL` (default 5000), `EXECUTOR_BATCH_SIZE`
/// (default 5), `K8S_NAMESPACE` (default `default`) and
/// `EXECUTOR_INSTANCE_ID` (default `executor-<host name>`, or
/// `executor-unknown` without one). A number that does not read keeps its
/// default.
pub fn executor_config_from_env_values(
    topics: Option<String>,
    poll_interval: Option<String>,
    batch_size: Option<String>,
    namespace: Option<String>,
    instance_id: Option<String>,
    host_name: Option<String>,
) -> (c: ExecutorConfig)
    ensures
        str_vec_view(c.topics) == topic_list(or_default(topics, "default"@)),
        c.poll_interval as nat == (match spec_parse_unsigned(or_default(poll_interval, "5000"@), u64::MAX as nat) {
            Some(n) => n,
            None => 5000,
        }),
        c.batch_size as nat == (match spec_parse_unsigned(or_default(batch_size, "5"@), usize::MAX as nat) {
            Some(n) => n,
            None => 5,
        }),
        c.kubernetes_namespace@ == or_default(namespace, "default"@),
        c.instance_id@ == (match instance_id {
            Some(i) => i@,
            None => match host_name {
                Some(h) => "executor-"@ + h@,
                None => "executor-unknown"@,
            },
        }),
{
    let topic_text = text_or(&topics, "default");
    let poll_text = text_or(&poll_interval, "5000");
    let batch_text = text_or(&batch_size, "5");
    let poll = match parse_unsigned(poll_text.as_str(), u64::MAX) {
        Some(n) => n,
        None => 5000,
    };
    let batch: usize = match parse_unsigned(batch_text.as_str(), usize::MAX as u64) {
        Some(n) => n as usize,
        None => 5,
    };
    let instance = match instance_id {
        Some(i) => i,
        None => match host_name {
            Some(h) => String::from_str("executor-").concat(h.as_str()),
            None => owned("executor-unknown"),
        },
    };
    ExecutorConfig {
        topics: parse_topics(topic_text.as_str()),
        poll_interval: poll,
        batch_size: batch,
        kubernetes_namespace: text_or(&namespace, "default"),
        instance_id: instance,
    }
}

/// Whether the executor runs in event-driven mode: `EXECUTOR_EVENT_DRIVEN`
/// reads as `true` (unset or unreadable means `false`).
pub fn event_driven_from_env_value(v: Option<String>) -> (b: bool)
    ensures
        b == (or_default(v, "false"@) == "true"@),
{
    let text = text_or(&v, "false");
    match parse_bool(text.as_str()) {
        Some(b) => b,
        None => false,
    }
}

/// Whether the Kubernetes client uses the in-cluster configuration:
/// `K8S_IN_CLUSTER` is `true` in any case of letters.
pub fn in_cluster_from_env_value(v: Option<String>) -> (b: bool)
    ensures
        b == eq_ignore_ascii_case(or_default(v, ""@), "true"@),
{
    let text = text_or(&v, "");
    str_eq_ignore_ascii_case(text.as_str(), "true")
}

/// How to reach the PostgreSQL database.
#[derive(Debug, Clone, PartialEq, Eq)]
pub struct DatabaseConfig {
    pub host: String,
    pub port: u16,
    pub database: String,
    pub user: String,
    pub password: Option<String>,
    pub max_connections: Option<usize>,
}

impl DatabaseConfig {
    /// The settings from the values of `DATABASE_HOST` (default
    /// `localhost`), `DATABASE_PORT` (default 5432, also when it does not
    /// read), `DATABASE_NAME` and `DATABASE_USER` (default `jobqueue`) and
    /// `DB_PASSWORD`, with at most 20 connections.
    pub fn from_env_values(
        host: Option<String>,
        port: Option<String>,
        database: Option<String>,
        user: Option<String>,
        password: Option<String>,
    ) -> (c: Self)
        ensures
            c.host@ == or_default(host, "localhost"@),
            c.port as nat == (match spec_parse_unsigned(or_default(port, "5432"@), 65535) {
                Some(n) => n,
                None => 5432,
            }),
            c.database@ == or_default(database, "jobqueue"@),
            c.user@ == or_default(user, "jobqueue"@),
            opt_str_view(c.password) == opt_str_view(password),
            c.max_connections == Some(20usize),
    {
        let port_text = text_or(&port, "5432");
        let port_value: u16 = match parse_unsigned(port_text.as_str(), 65535) {
            Some(n) => n as u16,
            None => 5432,
        };
        DatabaseConfig {
            host: text_or(&host, "localhost"),
            port: port_value,
            database: text_or(&database, "jobqueue"),
            user: text_or(&user, "jobqueue"),
            password,
            max_connections: Some(20),
        }
    }
}

} // verus!
