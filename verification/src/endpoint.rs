//! The speed-test endpoint's address and the requests made of it.
//!
//! A download is a GET of `/__down?bytes=N`, which answers with `N` bytes; an upload is
//! a POST of a body to `/__up`; a latency Sample is a download of zero bytes.
use vstd::prelude::*;

verus! {

/// Size of each chunk requested or sent while a Stream is running: small enough that a
/// Stream reacts quickly to its deadline, and that the endpoint's rate limit on large
/// requests is not tripped; large enough to keep HTTP overhead negligible.
pub const CHUNK_BYTES: usize = 1_000_000;

/// The decimal digit for `d`, for `d` in `0..10`.
pub open spec fn digit_char(d: int) -> char
    recommends
        0 <= d < 10,
{
    seq!['0', '1', '2', '3', '4', '5', '6', '7', '8', '9'][d]
}

/// The decimal representation of `n`, without sign or leading zeros.
pub open spec fn decimal(n: nat) -> Seq<char>
    decreases n,
{
    if n < 10 {
        seq![digit_char(n as int)]
    } else {
        decimal(n / 10) + seq![digit_char((n % 10) as int)]
    }
}

/// The number a string of decimal digits stands for, read from the character codes:
/// each character is worth its code minus the code of `'0'`.
pub open spec fn decimal_value(digits: Seq<char>) -> int
    decreases digits.len(),
{
    if digits.len() == 0 {
        0
    } else {
        decimal_value(digits.drop_last()) * 10 + (digits.last() as int - '0' as int)
    }
}

/// Each digit character has the code of `'0'` plus its value, so distinct values give
/// distinct digits, in order.
pub proof fn lemma_digit_codes(d: int)
    requires
        0 <= d < 10,
    ensures
        digit_char(d) as int == '0' as int + d,
        '0' as int == 48,
{
    assert('0' as int == 48);
    assert('1' as int == 49);
    assert('2' as int == 50);
    assert('3' as int == 51);
    assert('4' as int == 52);
    assert('5' as int == 53);
    assert('6' as int == 54);
    assert('7' as int == 55);
    assert('8' as int == 56);
    assert('9' as int == 57);
}

/// The decimal representation of `n` is made of digit characters only, starts with a
/// non-zero digit unless `n` is zero, and reads back as `n`.
pub proof fn lemma_decimal_reads_back(n: nat)
    ensures
        decimal_value(decimal(n)) == n,
        decimal(n).len() > 0,
        forall|i: int|
            0 <= i < decimal(n).len() ==> '0' <= #[trigger] decimal(n)[i] && decimal(n)[i]
                <= '9',
        n > 0 ==> decimal(n)[0] != '0',
    decreases n,
{
    if n < 10 {
        lemma_digit_codes(n as int);
        let s = decimal(n);
        assert(s.drop_last() =~= Seq::<char>::empty());
        assert(s[0] == digit_char(n as int));
        assert(decimal_value(s.drop_last()) == 0);
        assert(decimal_value(s) == n);
    } else {
        lemma_decimal_reads_back(n / 10);
        lemma_digit_codes((n % 10) as int);
        let head = decimal(n / 10);
        let s = decimal(n);
        assert(s == head + seq![digit_char((n % 10) as int)]);
        assert(s.drop_last() =~= head);
        assert(s.last() == digit_char((n % 10) as int));
        assert forall|i: int| 0 <= i < s.len() implies '0' <= #[trigger] s[i] && s[i] <= '9' by {
            if i < head.len() {
                assert(s[i] == head[i]);
            }
        }
        assert(s[0] == head[0]);
        assert(decimal_value(s) == (n / 10) as int * 10 + (n % 10) as int);
        vstd::arithmetic::div_mod::lemma_fundamental_div_mod(n as int, 10);
    }
}

/// The one-character string of the digit `d`.
fn digit_str(d: u64) -> (s: &'static str)
    requires
        d < 10,
    ensures
        s@ == seq![digit_char(d as int)],
{
    if d == 0 {
        proof {
            reveal_strlit("0");
        }
        "0"
    } else if d == 1 {
        proof {
            reveal_strlit("1");
        }
        "1"
    } else if d == 2 {
        proof {
            reveal_strlit("2");
        }
        "2"
    } else if d == 3 {
        proof {
            reveal_strlit("3");
        }
        "3"
    } else if d == 4 {
        proof {
            reveal_strlit("4");
        }
        "4"
    } else if d == 5 {
        proof {
            reveal_strlit("5");
        }
        "5"
    } else if d == 6 {
        proof {
            reveal_strlit("6");
        }
        "6"
    } else if d == 7 {
        proof {
            reveal_strlit("7");
        }
        "7"
    } else if d == 8 {
        proof {
            reveal_strlit("8");
        }
        "8"
    } else {
        proof {
            reveal_strlit("9");
        }
        "9"
    }
}

/// Appends the decimal representation of `n` to `out`.
fn append_decimal(out: &mut String, n: u64)
    ensures
        final(out)@ == old(out)@ + decimal(n as nat),
    decreases n,
{
    if n >= 10 {
        append_decimal(out, n / 10);
    }
    out.append(digit_str(n % 10));
    assert(out@ =~= old(out)@ + decimal(n as nat));
}

/// The decimal representation of `n` as a string.
pub fn decimal_string(n: u64) -> (s: String)
    ensures
        s@ == decimal(n as nat),
        decimal_value(s@) == n,
{
    let mut s = String::new();
    append_decimal(&mut s, n);
    proof {
        assert(s@ =~= decimal(n as nat));
        lemma_decimal_reads_back(n as nat);
    }
    s
}

/// The address of a speed-test endpoint: a scheme and host, with no trailing slash.
pub struct Endpoint {
    base_url: String,
}

impl Endpoint {
    /// The base address that every request is made against.
    pub closed spec fn base(&self) -> Seq<char> {
        self.base_url@
    }

    /// Cloudflare's public speed-test endpoint.
    pub fn cloudflare() -> (endpoint: Self)
        ensures
            endpoint.base() == "https://speed.cloudflare.com"@,
    {
        Endpoint { base_url: "https://speed.cloudflare.com".to_owned() }
    }

    /// An endpoint at another base address, such as a local stand-in for Cloudflare.
    pub fn with_base_url(base_url: String) -> (endpoint: Self)
        ensures
            endpoint.base() == base_url@,
    {
        Endpoint { base_url }
    }

    /// The address that answers a GET with `bytes` bytes.
    pub fn download_url(&self, bytes: u64) -> (url: String)
        ensures
            url@ == self.base() + "/__down?bytes="@ + decimal(bytes as nat),
    {
        let mut url = self.base_url.clone();
        url.append("/__down?bytes=");
        url.append(decimal_string(bytes).as_str());
        url
    }

    /// The address that accepts an uploaded chunk by POST.
    pub fn upload_url(&self) -> (url: String)
        ensures
            url@ == self.base() + "/__up"@,
    {
        let mut url = self.base_url.clone();
        url.append("/__up");
        url
    }

    /// The address of a latency Sample: a download of no bytes at all.
    pub fn ping_url(&self) -> (url: String)
        ensures
            url@ == self.base() + "/__down?bytes="@ + decimal(0),
    {
        self.download_url(0)
    }
}

} // verus!
