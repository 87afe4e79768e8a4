//! The token-matching authentication gate: a flat set of string-pattern
//! checks that produce a permission list. It recognizes a small table of
//! predefined tokens and three token shapes (JWT-like, API key, session
//! token).

use vstd::prelude::*;

use vstd::string::StrSliceExecFns;

use crate::clock::now_secs;

verus! {

/// The message a client sends to authenticate.
#[derive(Clone, Debug)]
pub struct AuthMessage {
    pub auth_token: String,
    pub client_id: String,
    pub timestamp: u64,
}

/// The server's answer to an authentication attempt.
#[derive(Clone, Debug)]
pub enum AuthResponse {
    Success { message: String, client_id: String, permissions: Vec<String> },
    Failure { error: String, code: u32 },
}

/// The claims carried by a structured token.
#[derive(Clone, Debug)]
pub struct TokenClaims {
    pub user_id: String,
    pub permissions: Vec<String>,
    pub issued_at: u64,
    pub expires_at: u64,
    pub client_info: Option<String>,
}

/// How many times `c` occurs in `s`.
pub open spec fn spec_count_char(s: Seq<char>, c: char) -> int
    decreases s.len(),
{
    if s.len() == 0 {
        0
    } else {
        spec_count_char(s.drop_last(), c) + if s.last() == c {
            1int
        } else {
            0int
        }
    }
}

/// Whether `c` is a decimal digit.
pub open spec fn spec_is_digit(c: char) -> bool {
    48 <= c as u32 <= 57
}

/// The number a digit sequence denotes in decimal.
pub open spec fn spec_dec_value(s: Seq<char>) -> int
    decreases s.len(),
{
    if s.len() == 0 {
        0
    } else {
        spec_dec_value(s.drop_last()) * 10 + (s.last() as u32 - 48)
    }
}

/// A JWT-shaped token: splitting on '.' yields exactly three parts.
pub open spec fn spec_jwt_ok(s: Seq<char>) -> bool {
    spec_count_char(s, '.') == 2
}

/// An API key: it reads `sk_<user>_<rest>...`, so it starts with `sk_` and
/// splitting on '_' yields at least three parts.
pub open spec fn spec_api_key_ok(s: Seq<char>) -> bool {
    &&& s.len() >= 3
    &&& s[0] == 's'
    &&& s[1] == 'k'
    &&& s[2] == '_'
    &&& spec_count_char(s, '_') >= 2
}

/// The token starts with `sess_`.
pub open spec fn spec_session_prefix(s: Seq<char>) -> bool {
    &&& s.len() >= 5
    &&& s[0] == 's'
    &&& s[1] == 'e'
    &&& s[2] == 's'
    &&& s[3] == 's'
    &&& s[4] == '_'
}

/// A session token's shape, `sess_<timestamp>_<user>_<rest>...`: the `sess_`
/// prefix and at least two more separators after it.
pub open spec fn spec_session_format(s: Seq<char>) -> bool {
    &&& spec_session_prefix(s)
    &&& exists|i: int, j: int| 5 <= i < j < s.len() && s[i] == '_' && s[j] == '_'
}

/// The position of the first '_' at or after `from` (meaningful when one
/// exists).
pub open spec fn spec_next_us(s: Seq<char>, from: int) -> int {
    choose|i: int|
        from <= i < s.len() && s[i] == '_' && (forall|j: int| from <= j < i ==> s[j] != '_')
}

/// A session token is fresh at `now` when it is less than an hour old; a
/// timestamp from the future counts as fresh.
pub open spec fn spec_session_fresh(ts: u64, now: u64) -> bool {
    now <= ts || now - ts < 3600
}

/// A session token that is accepted at `now`: well shaped, its timestamp
/// field all digits and within `u64`, and still fresh.
pub open spec fn spec_session_ok(s: Seq<char>, now: u64) -> bool {
    &&& spec_session_format(s)
    &&& ({
        let i2 = spec_next_us(s, 5);
        let field = s.subrange(5, i2);
        &&& field.len() > 0
        &&& (forall|k: int| 0 <= k < field.len() ==> spec_is_digit(field[k]))
        &&& spec_dec_value(field) <= u64::MAX
        &&& spec_session_fresh(spec_dec_value(field) as u64, now)
    })
}

/// Whether the predefined table has an entry whose token reads `t`.
pub open spec fn spec_predefined_has(table: Seq<(String, Vec<String>)>, t: Seq<char>) -> bool {
    exists|i: int| 0 <= i < table.len() && #[trigger] table[i].0@ == t
}

/// The flat validator over predefined tokens and the three token shapes.
pub struct AuthTokenValidator {
    pub secret_key: String,
    pub predefined_tokens: Vec<(String, Vec<String>)>,
}

impl AuthTokenValidator {
    /// A validator with the stock table of predefined tokens.
    pub fn new(secret_key: String) -> (r: Self)
        ensures
            r.secret_key == secret_key,
            r.predefined_tokens@.len() == 3,
            r.predefined_tokens@[0].0@ == "demo_token_12345"@,
            r.predefined_tokens@[0].1@.len() == 2,
            r.predefined_tokens@[0].1@[0]@ == "read"@,
            r.predefined_tokens@[0].1@[1]@ == "stream"@,
            r.predefined_tokens@[1].0@ == "test_auth_token"@,
            r.predefined_tokens@[1].1@.len() == 3,
            r.predefined_tokens@[1].1@[0]@ == "read"@,
            r.predefined_tokens@[1].1@[1]@ == "stream"@,
            r.predefined_tokens@[1].1@[2]@ == "write"@,
            r.predefined_tokens@[2].0@ == "admin_super_token_999"@,
            r.predefined_tokens@[2].1@.len() == 4,
            r.predefined_tokens@[2].1@[0]@ == "read"@,
            r.predefined_tokens@[2].1@[1]@ == "stream"@,
            r.predefined_tokens@[2].1@[2]@ == "write"@,
            r.predefined_tokens@[2].1@[3]@ == "admin"@,
    {
        let mut demo_perms: Vec<String> = Vec::new();
        demo_perms.push(String::from_str("read"));
        demo_perms.push(String::from_str("stream"));

        let mut test_perms: Vec<String> = Vec::new();
        test_perms.push(String::from_str("read"));
        test_perms.push(String::from_str("stream"));
        test_perms.push(String::from_str("write"));

        let mut admin_perms: Vec<String> = Vec::new();
        admin_perms.push(String::from_str("read"));
        admin_perms.push(String::from_str("stream"));
        admin_perms.push(String::from_str("write"));
        admin_perms.push(String::from_str("admin"));

        let mut predefined_tokens: Vec<(String, Vec<String>)> = Vec::new();
        predefined_tokens.push((String::from_str("demo_token_12345"), demo_perms));
        predefined_tokens.push((String::from_str("test_auth_token"), test_perms));
        predefined_tokens.push((String::from_str("admin_super_token_999"), admin_perms));

        AuthTokenValidator { secret_key, predefined_tokens }
    }

    /// Validate a token against the wall clock (session tokens age out an
    /// hour after their embedded timestamp).
    pub fn validate_token(&self, token: &str) -> (r: Result<Vec<String>, String>)
        ensures
            spec_predefined_has(self.predefined_tokens@, token@) ==> (r matches Ok(v)
                && exists|i: int|
                0 <= i < self.predefined_tokens@.len() && #[trigger] self.predefined_tokens@[i].0@
                    == token@ && v@ == self.predefined_tokens@[i].1@),
            !spec_predefined_has(self.predefined_tokens@, token@) && spec_count_char(token@, '.')
                >= 1 ==> (r is Ok <==> spec_jwt_ok(token@)),
            !spec_predefined_has(self.predefined_tokens@, token@) && spec_count_char(token@, '.')
                == 0 && token@.len() >= 3 && token@[0] == 's' && token@[1] == 'k' && token@[2]
                == '_' ==> (r is Ok <==> spec_api_key_ok(token@)),
            !spec_predefined_has(self.predefined_tokens@, token@) && spec_count_char(token@, '.')
                == 0 && !(token@.len() >= 3 && token@[0] == 's' && token@[1] == 'k' && token@[2]
                == '_') && spec_session_prefix(token@) ==> exists|now: u64|
                (r is Ok <==> #[trigger] spec_session_ok(token@, now)),
            !spec_predefined_has(self.predefined_tokens@, token@) && spec_count_char(token@, '.')
                == 0 && !(token@.len() >= 3 && token@[0] == 's' && token@[1] == 'k' && token@[2]
                == '_') && !spec_session_prefix(token@) ==> r is Err,
            !spec_predefined_has(self.predefined_tokens@, token@) ==> (r matches Ok(v) ==> v@.len()
                == 2 && v@[0]@ == "read"@ && v@[1]@ == "stream"@),
    {
        let now = now_secs();
        self.validate_token_at(token, now)
    }

    /// Validate a token as of `now` (seconds since the Unix epoch): first
    /// the predefined table, then by shape — JWT-like if it has any dot,
    /// else API key if it starts with `sk_`, else session token if it
    /// starts with `sess_`.
    pub fn validate_token_at(&self, token: &str, now: u64) -> (r: Result<Vec<String>, String>)
        ensures
            spec_predefined_has(self.predefined_tokens@, token@) ==> (r matches Ok(v)
                && exists|i: int|
                0 <= i < self.predefined_tokens@.len() && #[trigger] self.predefined_tokens@[i].0@
                    == token@ && v@ == self.predefined_tokens@[i].1@),
            !spec_predefined_has(self.predefined_tokens@, token@) && spec_count_char(token@, '.')
                >= 1 ==> (r is Ok <==> spec_jwt_ok(token@)),
            !spec_predefined_has(self.predefined_tokens@, token@) && spec_count_char(token@, '.')
                == 0 && token@.len() >= 3 && token@[0] == 's' && token@[1] == 'k' && token@[2]
                == '_' ==> (r is Ok <==> spec_api_key_ok(token@)),
            !spec_predefined_has(self.predefined_tokens@, token@) && spec_count_char(token@, '.')
                == 0 && !(token@.len() >= 3 && token@[0] == 's' && token@[1] == 'k' && token@[2]
                == '_') && spec_session_prefix(token@) ==> (r is Ok <==> spec_session_ok(
                token@,
                now,
            )),
            !spec_predefined_has(self.predefined_tokens@, token@) && spec_count_char(token@, '.')
                == 0 && !(token@.len() >= 3 && token@[0] == 's' && token@[1] == 'k' && token@[2]
                == '_') && !spec_session_prefix(token@) ==> r is Err,
            !spec_predefined_has(self.predefined_tokens@, token@) ==> (r matches Ok(v) ==> v@.len()
                == 2 && v@[0]@ == "read"@ && v@[1]@ == "stream"@),
    {
        let mut i: usize = 0;
        while i < self.predefined_tokens.len()
            invariant
                i <= self.predefined_tokens@.len(),
                forall|j: int| 0 <= j < i ==> #[trigger] self.predefined_tokens@[j].0@ != token@,
            decreases self.predefined_tokens@.len() - i,
        {
            if str_eq(token, self.predefined_tokens[i].0.as_str()) {
                return Ok(clone_string_vec(&self.predefined_tokens[i].1));
            }
            i = i + 1;
        }

        if count_char(token, '.') >= 1 {
            return self.validate_jwt_token(token);
        }
        if has_prefix(token, "sk_") {
            proof {
                reveal_strlit("sk_");
            }
            return self.validate_api_key(token);
        }
        if has_prefix(token, "sess_") {
            proof {
                reveal_strlit("sess_");
            }
            return self.validate_session_token_at(token, now);
        }
        proof {
            reveal_strlit("sk_");
            reveal_strlit("sess_");
        }
        Err(String::from_str("invalid authentication token"))
    }

    /// Accept a JWT-shaped token: exactly three dot-separated parts.
    pub fn validate_jwt_token(&self, token: &str) -> (r: Result<Vec<String>, String>)
        ensures
            r is Ok <==> spec_jwt_ok(token@),
            r matches Ok(v) ==> v@.len() == 2 && v@[0]@ == "read"@ && v@[1]@ == "stream"@,
    {
        if count_char(token, '.') == 2 {
            Ok(read_stream_permissions())
        } else {
            Err(String::from_str("invalid JWT token format"))
        }
    }

    /// Accept an API key of the shape `sk_<user>_<rest>...`.
    pub fn validate_api_key(&self, token: &str) -> (r: Result<Vec<String>, String>)
        ensures
            r is Ok <==> spec_api_key_ok(token@),
            r matches Ok(v) ==> v@.len() == 2 && v@[0]@ == "read"@ && v@[1]@ == "stream"@,
    {
        proof {
            reveal_strlit("sk_");
        }
        if has_prefix(token, "sk_") && count_char(token, '_') >= 2 {
            Ok(read_stream_permissions())
        } else {
            Err(String::from_str("invalid API key format"))
        }
    }

    /// Accept a session token against the wall clock.
    pub fn validate_session_token(&self, token: &str) -> (r: Result<Vec<String>, String>)
        ensures
            exists|now: u64| (r is Ok <==> #[trigger] spec_session_ok(token@, now)),
            r matches Ok(v) ==> v@.len() == 2 && v@[0]@ == "read"@ && v@[1]@ == "stream"@,
    {
        let now = now_secs();
        self.validate_session_token_at(token, now)
    }

    /// Accept a session token of the shape `sess_<timestamp>_<user>_<rest>`
    /// whose timestamp is less than an hour before `now`.
    pub fn validate_session_token_at(&self, token: &str, now: u64) -> (r: Result<
        Vec<String>,
        String,
    >)
        ensures
            r is Ok <==> spec_session_ok(token@, now),
            r matches Ok(v) ==> v@.len() == 2 && v@[0]@ == "read"@ && v@[1]@ == "stream"@,
    {
        proof {
            reveal_strlit("sess_");
        }
        if !has_prefix(token, "sess_") {
            return Err(String::from_str("invalid session token format"));
        }
        let i2_opt = find_char_from(token, '_', 5);
        let i2 = match i2_opt {
            Some(i2) => i2,
            None => {
                return Err(String::from_str("invalid session token format"));
            },
        };
        let i3_opt = find_char_from(token, '_', i2 + 1);
        if i3_opt.is_none() {
            proof {
                if spec_session_format(token@) {
                    let (wi, wj) = choose|wi: int, wj: int|
                        5 <= wi < wj < token@.len() && token@[wi] == '_' && token@[wj] == '_';
                    assert(token@[wj] == '_');
                }
            }
            return Err(String::from_str("invalid session token format"));
        }
        proof {
            assert(spec_session_format(token@)) by {
                let j3 = i3_opt->Some_0 as int;
                assert(token@[i2 as int] == '_' && token@[j3] == '_');
            }
            assert(spec_next_us(token@, 5) == i2 as int) by {
                let c = spec_next_us(token@, 5);
                assert(5 <= c < token@.len() && token@[c] == '_' && (forall|j: int|
                    5 <= j < c ==> token@[j] != '_'));
            }
        }
        let ghost field = token@.subrange(5, i2 as int);
        match parse_u64_range(token, 5, i2) {
            Some(ts) => {
                proof {
                    assert forall|k: int| 0 <= k < field.len() implies spec_is_digit(
                        field[k],
                    ) by {
                        assert(field[k] == token@[5 + k]);
                        assert(spec_is_digit(token@[5 + k]));
                    }
                    assert(field =~= token@.subrange(5, i2 as int));
                }
                if now <= ts || now - ts < 3600 {
                    Ok(read_stream_permissions())
                } else {
                    Err(String::from_str("session token expired"))
                }
            },
            None => {
                proof {
                    if spec_session_ok(token@, now) {
                        assert forall|k: int| 5 <= k < i2 as int implies spec_is_digit(
                            token@[k],
                        ) by {
                            assert(token@[k] == field[k - 5]);
                            assert(spec_is_digit(field[k - 5]));
                        }
                    }
                }
                Err(String::from_str("invalid session token timestamp"))
            },
        }
    }
}

/// The permission list granted to shape-validated tokens.
fn read_stream_permissions() -> (r: Vec<String>)
    ensures
        r@.len() == 2,
        r@[0]@ == "read"@,
        r@[1]@ == "stream"@,
{
    let mut v: Vec<String> = Vec::new();
    v.push(String::from_str("read"));
    v.push(String::from_str("stream"));
    v
}

/// An equal copy of a list of strings.
fn clone_string_vec(v: &Vec<String>) -> (r: Vec<String>)
    ensures
        r@ == v@,
{
    let mut r: Vec<String> = Vec::new();
    let mut i: usize = 0;
    while i < v.len()
        invariant
            i <= v@.len(),
            r@ == v@.take(i as int),
        decreases v@.len() - i,
    {
        r.push(v[i].clone());
        proof {
            assert(r@ =~= v@.take(i + 1));
        }
        i = i + 1;
    }
    proof {
        assert(v@.take(v@.len() as int) =~= v@);
    }
    r
}

/// Character-wise string equality.
fn str_eq(a: &str, b: &str) -> (r: bool)
    ensures
        r == (a@ == b@),
{
    let n = a.unicode_len();
    if n != b.unicode_len() {
        return false;
    }
    let mut i: usize = 0;
    while i < n
        invariant
            n == a@.len(),
            n == b@.len(),
            i <= n,
            forall|j: int| 0 <= j < i ==> a@[j] == b@[j],
        decreases n - i,
    {
        if a.get_char(i) != b.get_char(i) {
            return false;
        }
        i = i + 1;
    }
    proof {
        assert(a@ =~= b@);
    }
    true
}

/// How many times `c` occurs in `s`.
fn count_char(s: &str, c: char) -> (r: usize)
    ensures
        r == spec_count_char(s@, c),
{
    let n = s.unicode_len();
    let mut count: usize = 0;
    let mut i: usize = 0;
    while i < n
        invariant
            n == s@.len(),
            i <= n,
            count <= i,
            count == spec_count_char(s@.take(i as int), c),
        decreases n - i,
    {
        proof {
            assert(s@.take(i + 1).drop_last() =~= s@.take(i as int));
            assert(s@.take(i + 1).last() == s@[i as int]);
        }
        if s.get_char(i) == c {
            count = count + 1;
        }
        i = i + 1;
    }
    proof {
        assert(s@.take(s@.len() as int) =~= s@);
    }
    count
}

/// The first position of `c` at or after `from`, if any.
fn find_char_from(s: &str, c: char, from: usize) -> (r: Option<usize>)
    requires
        from <= s@.len(),
    ensures
        s@.len() <= usize::MAX,
        r matches Some(i) ==> from <= i < s@.len() && s@[i as int] == c && (forall|j: int|
            from <= j < i ==> s@[j] != c),
        r is None ==> forall|j: int| from <= j < s@.len() ==> s@[j] != c,
{
    let n = s.unicode_len();
    let mut i: usize = from;
    while i < n
        invariant
            n == s@.len(),
            from <= i <= n,
            forall|j: int| from <= j < i ==> s@[j] != c,
        decreases n - i,
    {
        if s.get_char(i) == c {
            return Some(i);
        }
        i = i + 1;
    }
    None
}

/// Whether `s` starts with `p`.
fn has_prefix(s: &str, p: &str) -> (r: bool)
    ensures
        r == (p@.len() <= s@.len() && (forall|j: int| 0 <= j < p@.len() ==> s@[j] == p@[j])),
{
    let np = p.unicode_len();
    let ns = s.unicode_len();
    if np > ns {
        return false;
    }
    let mut i: usize = 0;
    while i < np
        invariant
            np == p@.len(),
            ns == s@.len(),
            np <= ns,
            i <= np,
            forall|j: int| 0 <= j < i ==> s@[j] == p@[j],
        decreases np - i,
    {
        if s.get_char(i) != p.get_char(i) {
            return false;
        }
        i = i + 1;
    }
    true
}

/// Every digit sequence denotes a non-negative number.
proof fn lemma_dec_value_nonneg(s: Seq<char>)
    requires
        forall|k: int| 0 <= k < s.len() ==> spec_is_digit(#[trigger] s[k]),
    ensures
        spec_dec_value(s) >= 0,
    decreases s.len(),
{
    if s.len() > 0 {
        lemma_dec_value_nonneg(s.drop_last());
    }
}

/// A digit sequence denotes at least as much as any of its prefixes.
proof fn lemma_dec_value_prefix_le(s: Seq<char>, k: int)
    requires
        forall|m: int| 0 <= m < s.len() ==> spec_is_digit(#[trigger] s[m]),
        0 <= k <= s.len(),
    ensures
        spec_dec_value(s.take(k)) <= spec_dec_value(s),
    decreases s.len() - k,
{
    if k < s.len() {
        lemma_dec_value_prefix_le(s, k + 1);
        assert(s.take(k + 1).drop_last() =~= s.take(k));
        lemma_dec_value_nonneg(s.take(k));
        assert(spec_dec_value(s.take(k + 1)) == spec_dec_value(s.take(k)) * 10 + (s[k] as u32
            - 48));
        assert(spec_dec_value(s.take(k)) * 10 >= spec_dec_value(s.take(k))) by (nonlinear_arith)
            requires
                spec_dec_value(s.take(k)) >= 0,
        ;
    } else {
        assert(s.take(k) =~= s);
    }
}

/// Parse `s[from..to]` as a decimal `u64`: all digits, non-empty, within
/// range.
fn parse_u64_range(s: &str, from: usize, to: usize) -> (r: Option<u64>)
    requires
        from <= to <= s@.len(),
    ensures
        r matches Some(v) ==> to > from && (forall|k: int|
            from <= k < to ==> spec_is_digit(#[trigger] s@[k])) && v == spec_dec_value(
            s@.subrange(from as int, to as int),
        ),
        r is None ==> !(to > from && (forall|k: int|
            from <= k < to ==> spec_is_digit(#[trigger] s@[k])) && spec_dec_value(
            s@.subrange(from as int, to as int),
        ) <= u64::MAX),
{
    if to <= from {
        return None;
    }
    let ghost whole = s@.subrange(from as int, to as int);
    let mut acc: u64 = 0;
    let mut i: usize = from;
    while i < to
        invariant
            from <= i <= to <= s@.len(),
            whole == s@.subrange(from as int, to as int),
            forall|k: int| from <= k < i ==> spec_is_digit(#[trigger] s@[k]),
            acc == spec_dec_value(s@.subrange(from as int, i as int)),
        decreases to - i,
    {
        let c = s.get_char(i);
        let u = c as u32;
        if u < 48 || u > 57 {
            return None;
        }
        let d: u64 = (u - 48) as u64;
        if acc > (u64::MAX - d) / 10 {
            // The digits read so far already exceed `u64`; the whole field
            // can only be larger.
            proof {
                let part = s@.subrange(from as int, i + 1);
                assert(part.drop_last() =~= s@.subrange(from as int, i as int));
                assert(part.last() == s@[i as int]);
                assert(spec_dec_value(part) == acc * 10 + d);
                assert(acc * 10 + d > u64::MAX) by {
                    vstd::arithmetic::div_mod::lemma_fundamental_div_mod(
                        u64::MAX - d,
                        10,
                    );
                    assert(acc >= (u64::MAX - d) / 10 + 1);
                    assert(acc * 10 >= ((u64::MAX - d) / 10 + 1) * 10) by (nonlinear_arith)
                        requires
                            acc >= (u64::MAX - d) / 10 + 1,
                    ;
                    assert(((u64::MAX - d) / 10 + 1) * 10 == ((u64::MAX - d) / 10) * 10 + 10)
                        by (nonlinear_arith);
                    assert((u64::MAX - d) % 10 < 10);
                }
                assert(whole =~= part + s@.subrange(i + 1, to as int));
                if (forall|k: int| from <= k < to ==> spec_is_digit(#[trigger] s@[k])) {
                    assert(forall|m: int| 0 <= m < whole.len() ==> spec_is_digit(#[trigger] whole[m]))
                        by {
                        assert(forall|m: int| 0 <= m < whole.len() ==> whole[m] == s@[from + m]);
                    }
                    lemma_dec_value_prefix_le(whole, i + 1 - from);
                    assert(whole.take(i + 1 - from) =~= part);
                }
            }
            return None;
        }
        proof {
            let part = s@.subrange(from as int, i + 1);
            assert(part.drop_last() =~= s@.subrange(from as int, i as int));
            assert(part.last() == s@[i as int]);
            vstd::arithmetic::div_mod::lemma_fundamental_div_mod(u64::MAX - d, 10);
            assert(acc * 10 <= ((u64::MAX - d) / 10) * 10) by (nonlinear_arith)
                requires
                    acc <= (u64::MAX - d) / 10,
            ;
            assert((u64::MAX - d) % 10 >= 0);
        }
        acc = acc * 10 + d;
        i = i + 1;
    }
    Some(acc)
}

} // verus!
