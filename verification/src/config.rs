//! Server configuration: the listen address is validated against the
//! same dotted-quad and port grammar the service has always accepted,
//! and the pieces are assembled into the address and store-URL strings.

use vstd::prelude::*;
use vstd::string::StrSliceExecFns;
use vstd::string::StringExecFns;

verus! {

/// An ASCII decimal digit.
pub open spec fn is_digit(c: char) -> bool {
    '0' <= c && c <= '9'
}

pub open spec fn digit_val(c: char) -> int {
    c as int - '0' as int
}

/// Every character is a decimal digit.
pub open spec fn all_digits(s: Seq<char>) -> bool {
    forall|i: int| 0 <= i < s.len() ==> is_digit(s[i])
}

/// The number a digit string denotes.
pub open spec fn dec_value(s: Seq<char>) -> int
    decreases s.len(),
{
    if s.len() == 0 {
        0
    } else {
        dec_value(s.drop_last()) * 10 + digit_val(s.last())
    }
}

/// One dotted-quad part: one to three digits whose value is at most 255
/// (leading zeros are accepted).
pub open spec fn octet_ok(s: Seq<char>) -> bool {
    1 <= s.len() <= 3 && all_digits(s) && dec_value(s) <= 255
}

/// A dotted-quad IPv4 address: four octets joined by three dots.
pub open spec fn ip_ok(s: Seq<char>) -> bool {
    exists|a: int, b: int, c: int|
        #![auto]
        0 <= a < b < c < s.len() && s[a] == '.' && s[b] == '.' && s[c] == '.' && octet_ok(
            s.subrange(0, a),
        ) && octet_ok(s.subrange(a + 1, b)) && octet_ok(s.subrange(b + 1, c)) && octet_ok(
            s.subrange(c + 1, s.len() as int),
        )
}

/// A listen port: digits without a leading zero, between 10 and 65535.
/// (One-digit ports have never been accepted here.)
pub open spec fn port_ok(s: Seq<char>) -> bool {
    s.len() > 0 && all_digits(s) && s[0] != '0' && 10 <= dec_value(s) <= 65535
}

/// How the service connects: where to listen and how to reach the
/// backing document store.
pub struct ServerConfig {
    addr_ip: String,
    addr_port: String,
    db_username: String,
    db_password: String,
    db_url: String,
}

impl ServerConfig {
    /// A configuration from its five pieces.
    pub fn new(
        addr_ip: String,
        addr_port: String,
        db_username: String,
        db_password: String,
        db_url: String,
    ) -> (cfg: ServerConfig)
        ensures
            cfg.addr_ip() == addr_ip@,
            cfg.addr_port() == addr_port@,
            cfg.db_username() == db_username@,
            cfg.db_password() == db_password@,
            cfg.db_url_host() == db_url@,
    {
        ServerConfig { addr_ip, addr_port, db_username, db_password, db_url }
    }

    pub closed spec fn addr_ip(&self) -> Seq<char> {
        self.addr_ip@
    }

    pub closed spec fn addr_port(&self) -> Seq<char> {
        self.addr_port@
    }

    pub closed spec fn db_username(&self) -> Seq<char> {
        self.db_username@
    }

    pub closed spec fn db_password(&self) -> Seq<char> {
        self.db_password@
    }

    pub closed spec fn db_url_host(&self) -> Seq<char> {
        self.db_url@
    }

    /// Whether the listen address is a dotted-quad IPv4 address with an
    /// acceptable port.
    pub fn validate(&self) -> (r: bool)
        ensures
            r == (ip_ok(self.addr_ip()) && port_ok(self.addr_port())),
    {
        validate_ip(self.addr_ip.as_str()) && validate_port(self.addr_port.as_str())
    }

    /// The listen address: `ip:port`.
    pub fn addr(&self) -> (r: String)
        ensures
            r@ == self.addr_ip() + ":"@ + self.addr_port(),
    {
        let mut r = String::new();
        r.append(self.addr_ip.as_str());
        r.append(":");
        r.append(self.addr_port.as_str());
        proof {
            assert(r@ =~= self.addr_ip() + ":"@ + self.addr_port());
        }
        r
    }

    /// The document-store connection URL assembled from the credentials
    /// and the host.
    pub fn db_url(&self) -> (r: String)
        ensures
            r@ == "mongodb+srv://"@ + self.db_username() + ":"@ + self.db_password() + "@"@
                + self.db_url_host() + "?retryWrites=true&w=majority"@,
    {
        let mut r = String::new();
        r.append("mongodb+srv://");
        r.append(self.db_username.as_str());
        r.append(":");
        r.append(self.db_password.as_str());
        r.append("@");
        r.append(self.db_url.as_str());
        r.append("?retryWrites=true&w=majority");
        proof {
            assert(r@ =~= "mongodb+srv://"@ + self.db_username() + ":"@ + self.db_password()
                + "@"@ + self.db_url_host() + "?retryWrites=true&w=majority"@);
        }
        r
    }
}

/// A digit string denotes a number below ten to its length.
proof fn lemma_dec_value_bounds(s: Seq<char>)
    requires
        all_digits(s),
    ensures
        0 <= dec_value(s) < pow10(s.len() as nat),
    decreases s.len(),
{
    if s.len() > 0 {
        assert(all_digits(s.drop_last())) by {
            assert(forall|i: int| 0 <= i < s.len() - 1 ==> s.drop_last()[i] == s[i]);
        }
        lemma_dec_value_bounds(s.drop_last());
        assert(is_digit(s.last()));
        assert(0 <= digit_val(s.last()) <= 9);
    }
}

/// Ten to any power is at least one.
proof fn lemma_pow10_at_least(n: nat)
    ensures
        pow10(n) >= 1,
    decreases n,
{
    if n > 0 {
        lemma_pow10_at_least((n - 1) as nat);
    }
}

/// Ten to the power grows with the exponent.
proof fn lemma_pow10_mono(m: nat, n: nat)
    requires
        m <= n,
    ensures
        pow10(m) <= pow10(n),
    decreases n,
{
    if m < n {
        lemma_pow10_mono(m, (n - 1) as nat);
        lemma_pow10_at_least((n - 1) as nat);
    }
}

/// Whether the character range `[from, to)` of `s` is an acceptable
/// dotted-quad octet.
fn check_octet(s: &str, from: usize, to: usize) -> (r: bool)
    requires
        from <= to <= s@.len(),
    ensures
        r == octet_ok(s@.subrange(from as int, to as int)),
{
    let seg_len = to - from;
    if seg_len < 1 || seg_len > 3 {
        return false;
    }
    let mut v: u32 = 0;
    let mut k = from;
    while k < to
        invariant
            from <= k <= to <= s@.len(),
            to - from <= 3,
            all_digits(s@.subrange(from as int, k as int)),
            v == dec_value(s@.subrange(from as int, k as int)),
            v <= 999,
        decreases to - k,
    {
        proof {
            let pre = s@.subrange(from as int, k as int);
            let cur = s@.subrange(from as int, k + 1 as int);
            assert(cur.drop_last() =~= pre);
            assert(cur.last() == s@[k as int]);
            lemma_dec_value_bounds(pre);
            reveal_with_fuel(pow10, 4);
            lemma_pow10_mono(pre.len() as nat, 2);
        }
        let c = s.get_char(k);
        let cv = c as u32;
        if cv < 48 || cv > 57 {
            proof {
                let whole = s@.subrange(from as int, to as int);
                assert(whole[k - from] == s@[k as int]);
                assert(!is_digit(whole[k - from]));
            }
            return false;
        }
        v = v * 10 + (cv - 48);
        k += 1;
    }
    proof {
        assert(s@.subrange(from as int, k as int) =~= s@.subrange(from as int, to as int));
    }
    v <= 255
}

/// The first dot at or after `from`, if any.
fn first_dot_from(s: &str, from: usize) -> (r: Option<usize>)
    requires
        from <= s@.len(),
    ensures
        r is Some ==> from <= r->0 < s@.len() && s@[r->0 as int] == '.' && (forall|k: int|
            from <= k < r->0 ==> s@[k] != '.'),
        r is None ==> forall|k: int| from <= k < s@.len() ==> s@[k] != '.',
{
    let n = s.unicode_len();
    let mut k = from;
    while k < n
        invariant
            from <= k <= n == s@.len(),
            forall|t: int| from <= t < k ==> s@[t] != '.',
        decreases n - k,
    {
        if s.get_char(k) == '.' {
            return Some(k);
        }
        k += 1;
    }
    None
}

/// Whether `s` is a dotted-quad IPv4 address.
fn validate_ip(s: &str) -> (r: bool)
    ensures
        r == ip_ok(s@),
{
    let n = s.unicode_len();
    let a = match first_dot_from(s, 0) {
        Some(x) => x,
        None => {
            proof {
                lemma_not_ip_without_dots(s@);
            }
            return false;
        },
    };
    if a + 1 > n {
        proof {
            assert(a + 1 <= s@.len());
        }
    }
    let b = match first_dot_from(s, a + 1) {
        Some(x) => x,
        None => {
            proof {
                lemma_ip_dots_forced(s@, a as int);
            }
            return false;
        },
    };
    let c = match first_dot_from(s, b + 1) {
        Some(x) => x,
        None => {
            proof {
                lemma_ip_dots_forced(s@, a as int);
                lemma_ip_second_dot_forced(s@, a as int, b as int);
            }
            return false;
        },
    };
    if let Some(d) = first_dot_from(s, c + 1) {
        proof {
            lemma_ip_dots_forced(s@, a as int);
            lemma_ip_second_dot_forced(s@, a as int, b as int);
            lemma_ip_third_dot_forced(s@, a as int, b as int, c as int);
            assert(!ip_ok(s@)) by {
                if ip_ok(s@) {
                    let (x, y, z) = choose|x: int, y: int, z: int|
                        #![auto]
                        0 <= x < y < z < s@.len() && s@[x] == '.' && s@[y] == '.' && s@[z] == '.'
                            && octet_ok(s@.subrange(0, x)) && octet_ok(s@.subrange(x + 1, y))
                            && octet_ok(s@.subrange(y + 1, z)) && octet_ok(
                            s@.subrange(z + 1, s@.len() as int),
                        );
                    assert(x == a as int);
                    assert(y == b as int);
                    assert(z == c as int);
                    assert(s@.subrange(c + 1 as int, s@.len() as int)[d - c - 1] == s@[d as int]);
                }
            }
        }
        return false;
    }
    let ok = check_octet(s, 0, a) && check_octet(s, a + 1, b) && check_octet(s, b + 1, c)
        && check_octet(s, c + 1, n);
    proof {
        if ok {
            assert(ip_ok(s@));
        } else {
            lemma_ip_dots_forced(s@, a as int);
            lemma_ip_second_dot_forced(s@, a as int, b as int);
            lemma_ip_third_dot_forced(s@, a as int, b as int, c as int);
        }
    }
    ok
}

/// A string without a single dot is no dotted quad.
proof fn lemma_not_ip_without_dots(s: Seq<char>)
    requires
        forall|k: int| 0 <= k < s.len() ==> s[k] != '.',
    ensures
        !ip_ok(s),
{
}

/// In any valid dotted-quad split of `s`, the first separator is the
/// first dot of the string.
proof fn lemma_ip_dots_forced(s: Seq<char>, a: int)
    requires
        0 <= a < s.len(),
        s[a] == '.',
        forall|k: int| 0 <= k < a ==> s[k] != '.',
    ensures
        forall|x: int, y: int, z: int|
            #![auto]
            0 <= x < y < z < s.len() && s[x] == '.' && s[y] == '.' && s[z] == '.' && octet_ok(
                s.subrange(0, x),
            ) && octet_ok(s.subrange(x + 1, y)) && octet_ok(s.subrange(y + 1, z)) && octet_ok(
                s.subrange(z + 1, s.len() as int),
            ) ==> x == a,
{
    assert forall|x: int, y: int, z: int|
        #![auto]
        0 <= x < y < z < s.len() && s[x] == '.' && s[y] == '.' && s[z] == '.' && octet_ok(
            s.subrange(0, x),
        ) && octet_ok(s.subrange(x + 1, y)) && octet_ok(s.subrange(y + 1, z)) && octet_ok(
            s.subrange(z + 1, s.len() as int),
        ) implies x == a by {
        if x > a {
            assert(s.subrange(0, x)[a] == s[a]);
            assert(is_digit(s.subrange(0, x)[a]));
        }
    }
}

/// In any valid dotted-quad split whose first separator is `a`, the
/// second separator is the first dot after `a`.
proof fn lemma_ip_second_dot_forced(s: Seq<char>, a: int, b: int)
    requires
        0 <= a < b < s.len(),
        s[b] == '.',
        forall|k: int| a + 1 <= k < b ==> s[k] != '.',
    ensures
        forall|y: int, z: int|
            #![auto]
            a < y < z < s.len() && s[y] == '.' && s[z] == '.' && octet_ok(s.subrange(a + 1, y))
                && octet_ok(s.subrange(y + 1, z)) && octet_ok(s.subrange(z + 1, s.len() as int))
                ==> y == b,
{
    assert forall|y: int, z: int|
        #![auto]
        a < y < z < s.len() && s[y] == '.' && s[z] == '.' && octet_ok(s.subrange(a + 1, y))
            && octet_ok(s.subrange(y + 1, z)) && octet_ok(
            s.subrange(z + 1, s.len() as int),
        ) implies y == b by {
        if y > b {
            assert(s.subrange(a + 1, y)[b - a - 1] == s[b]);
            assert(is_digit(s.subrange(a + 1, y)[b - a - 1]));
        }
    }
}

/// In any valid dotted-quad split whose first separators are `a` and
/// `b`, the third separator is the first dot after `b`.
proof fn lemma_ip_third_dot_forced(s: Seq<char>, a: int, b: int, c: int)
    requires
        0 <= a < b < c < s.len(),
        s[c] == '.',
        forall|k: int| b + 1 <= k < c ==> s[k] != '.',
    ensures
        forall|z: int|
            #![auto]
            b < z < s.len() && s[z] == '.' && octet_ok(s.subrange(b + 1, z)) && octet_ok(
                s.subrange(z + 1, s.len() as int),
            ) ==> z == c,
{
    assert forall|z: int|
        #![auto]
        b < z < s.len() && s[z] == '.' && octet_ok(s.subrange(b + 1, z)) && octet_ok(
            s.subrange(z + 1, s.len() as int),
        ) implies z == c by {
        if z > c {
            assert(s.subrange(b + 1, z)[c - b - 1] == s[c]);
            assert(is_digit(s.subrange(b + 1, z)[c - b - 1]));
        }
    }
}

/// Whether `s` is an acceptable listen port.
fn validate_port(s: &str) -> (r: bool)
    ensures
        r == port_ok(s@),
{
    let n = s.unicode_len();
    if n == 0 {
        return false;
    }
    if s.get_char(0) == '0' {
        return false;
    }
    if n > 5 {
        proof {
            lemma_long_digit_strings_are_large(s@);
        }
        return false;
    }
    let mut v: u32 = 0;
    let mut k: usize = 0;
    while k < n
        invariant
            k <= n == s@.len(),
            n <= 5,
            all_digits(s@.subrange(0, k as int)),
            v == dec_value(s@.subrange(0, k as int)),
            v <= 99999,
        decreases n - k,
    {
        proof {
            let pre = s@.subrange(0, k as int);
            let cur = s@.subrange(0, k + 1 as int);
            assert(cur.drop_last() =~= pre);
            assert(cur.last() == s@[k as int]);
            lemma_dec_value_bounds(pre);
            reveal_with_fuel(pow10, 6);
            lemma_pow10_mono(pre.len() as nat, 4);
        }
        let c = s.get_char(k);
        let cv = c as u32;
        if cv < 48 || cv > 57 {
            proof {
                assert(!is_digit(s@[k as int]));
            }
            return false;
        }
        v = v * 10 + (cv - 48);
        k += 1;
    }
    proof {
        assert(s@.subrange(0, s@.len() as int) =~= s@);
    }
    10 <= v && v <= 65535
}

/// A digit string of six or more places without a leading zero denotes
/// more than 65535.
proof fn lemma_long_digit_strings_are_large(s: Seq<char>)
    requires
        s.len() > 5,
        s[0] != '0',
    ensures
        all_digits(s) ==> dec_value(s) > 65535,
{
    if all_digits(s) {
        lemma_nonzero_lead_value_grows(s);
        lemma_pow10_mono(5, (s.len() - 1) as nat);
        assert(pow10(5) == 100000) by {
            reveal_with_fuel(pow10, 6);
        }
    }
}

/// A digit string without a leading zero denotes at least its smallest
/// same-length number: 10^(len-1).
proof fn lemma_nonzero_lead_value_grows(s: Seq<char>)
    requires
        all_digits(s),
        s.len() >= 1,
        s[0] != '0',
    ensures
        dec_value(s) >= pow10((s.len() - 1) as nat),
    decreases s.len(),
{
    if s.len() == 1 {
        assert(digit_val(s[0]) >= 1);
        assert(dec_value(s) == dec_value(s.drop_last()) * 10 + digit_val(s.last()));
        assert(s.drop_last().len() == 0);
    } else {
        assert(all_digits(s.drop_last())) by {
            assert(forall|i: int| 0 <= i < s.len() - 1 ==> s.drop_last()[i] == s[i]);
        }
        assert(s.drop_last()[0] == s[0]);
        lemma_nonzero_lead_value_grows(s.drop_last());
        assert(digit_val(s.last()) >= 0);
    }
}

/// Ten to the power `n`.
pub open spec fn pow10(n: nat) -> int
    decreases n,
{
    if n == 0 {
        1
    } else {
        10 * pow10((n - 1) as nat)
    }
}

} // verus!
