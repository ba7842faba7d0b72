//! Which endpoints lie on the local host or in a private network.

use crate::text;
use crate::text::{lowercase_chars_of, starts_with};
use vstd::prelude::*;
use vstd::string::*;

verus! {

/// What the URLs of the loopback host and of the private networks 10.0.0.0/8 and
/// 192.168.0.0/16 start with.
pub open spec fn private_prefixes() -> Seq<Seq<char>> {
    seq![
        "http://127."@,
        "https://127."@,
        "http://localhost"@,
        "https://localhost"@,
        "http://[::1]"@,
        "https://[::1]"@,
        "http://10."@,
        "https://10."@,
        "http://192.168."@,
        "https://192.168."@,
    ]
}

/// A number of two digits, written out.
pub open spec fn two_digits(n: int) -> Seq<char> {
    seq![(n / 10 + 48) as u8 as char, (n % 10 + 48) as u8 as char]
}

/// Whether a URL's host starts with 172 and the given second octet of two digits.
pub open spec fn starts_with_172(url: Seq<char>, octet: int) -> bool {
    ||| ("http://172."@ + two_digits(octet) + "."@).is_prefix_of(url)
    ||| ("https://172."@ + two_digits(octet) + "."@).is_prefix_of(url)
}

/// Whether a URL points at the local host or into a private network, by the host as
/// it is written. Capitals make no difference.
pub open spec fn local_or_private(url: Seq<char>) -> bool {
    let lower = text::ascii_lowercase(url);
    ||| exists|i: int|
        0 <= i < private_prefixes().len() && (#[trigger] private_prefixes()[i]).is_prefix_of(lower)
    ||| exists|octet: int| 16 <= octet <= 31 && #[trigger] starts_with_172(lower, octet)
}

/// Detects endpoints that point at the local host or at a private address. It goes
/// by the host as it is written and resolves no name.
pub fn is_local_or_private(url: &str) -> (yes: bool)
    ensures
        yes == local_or_private(url@),
{
    let lower: Vec<char> = lowercase_chars_of(url);
    let prefixes: [&str; 10] = [
        "http://127.",
        "https://127.",
        "http://localhost",
        "https://localhost",
        "http://[::1]",
        "https://[::1]",
        "http://10.",
        "https://10.",
        "http://192.168.",
        "https://192.168.",
    ];
    let mut i: usize = 0;
    while i < 10
        invariant
            lower@ == text::ascii_lowercase(url@),
            i <= 10,
            private_prefixes().len() == 10,
            forall|j: int| 0 <= j < 10 ==> #[trigger] private_prefixes()[j] == prefixes@[j]@,
            forall|j: int|
                0 <= j < i ==> !(#[trigger] private_prefixes()[j]).is_prefix_of(lower@),
        decreases 10 - i,
    {
        assert(private_prefixes()[i as int] == prefixes@[i as int]@);
        if starts_with(&lower, prefixes[i]) {
            return true;
        }
        i += 1;
    }
    let mut octet: u8 = 16;
    while octet <= 31
        invariant
            lower@ == text::ascii_lowercase(url@),
            16 <= octet <= 32,
            forall|k: int| 16 <= k < octet ==> !#[trigger] starts_with_172(lower@, k),
        decreases 32 - octet,
    {
        let tens: char = (octet / 10 + 48) as char;
        let ones: char = (octet % 10 + 48) as char;
        let mut http: String = "http://172.".to_owned();
        http.push(tens);
        http.push(ones);
        http.append(".");
        let mut https: String = "https://172.".to_owned();
        https.push(tens);
        https.push(ones);
        https.append(".");
        proof {
            assert(http@ =~= "http://172."@ + two_digits(octet as int) + "."@);
            assert(https@ =~= "https://172."@ + two_digits(octet as int) + "."@);
        }
        if starts_with(&lower, http.as_str()) || starts_with(&lower, https.as_str()) {
            assert(starts_with_172(lower@, octet as int));
            return true;
        }
        octet += 1;
    }
    false
}

/// Capitals make no difference: a URL is detected just as its form in small letters is.
pub proof fn law_capitals_make_no_difference(url: Seq<char>)
    ensures
        local_or_private(text::ascii_lowercase(url)) == local_or_private(url),
{
    assert(text::ascii_lowercase(text::ascii_lowercase(url)) =~= text::ascii_lowercase(url));
}

/// What follows the host makes no difference: a URL that is detected is detected with
/// any port, path or query behind it.
pub proof fn law_suffix_makes_no_difference(url: Seq<char>, suffix: Seq<char>)
    requires
        local_or_private(url),
    ensures
        local_or_private(url + suffix),
{
    let lower = text::ascii_lowercase(url);
    let longer = text::ascii_lowercase(url + suffix);
    assert(longer =~= lower + text::ascii_lowercase(suffix));
    assert forall|prefix: Seq<char>| #[trigger] prefix.is_prefix_of(lower) implies prefix.is_prefix_of(
        longer,
    ) by {
        assert(longer.subrange(0, prefix.len() as int) =~= lower.subrange(0, prefix.len() as int));
    }
    if exists|i: int|
        0 <= i < private_prefixes().len() && (#[trigger] private_prefixes()[i]).is_prefix_of(
            lower,
        ) {
        let i = choose|i: int|
            0 <= i < private_prefixes().len() && (#[trigger] private_prefixes()[i]).is_prefix_of(
                lower,
            );
        assert(private_prefixes()[i].is_prefix_of(longer));
    } else {
        let octet = choose|octet: int| 16 <= octet <= 31 && #[trigger] starts_with_172(lower, octet);
        assert(starts_with_172(longer, octet));
    }
}

/// What each of the private prefixes is made of: no capitals, and after the scheme, which
/// takes turns, a host that does not start with 17.
proof fn lemma_private_prefix(k: int)
    requires
        0 <= k < private_prefixes().len(),
    ensures
        ({
            let prefix = private_prefixes()[k];
            let host = 7 + k % 2;
            &&& prefix.len() > host + 1
            &&& prefix[4] == if k % 2 == 0 {
                ':'
            } else {
                's'
            }
            &&& prefix[host] != '1' || prefix[host + 1] != '7'
            &&& forall|i: int| 0 <= i < prefix.len() ==> !('A' <= #[trigger] prefix[i] <= 'Z')
        }),
{
    reveal_strlit("http://127.");
    reveal_strlit("https://127.");
    reveal_strlit("http://localhost");
    reveal_strlit("https://localhost");
    reveal_strlit("http://[::1]");
    reveal_strlit("https://[::1]");
    reveal_strlit("http://10.");
    reveal_strlit("https://10.");
    reveal_strlit("http://192.168.");
    reveal_strlit("https://192.168.");
}

/// The loopback host and the networks 10.0.0.0/8 and 192.168.0.0/16 are detected,
/// whatever follows.
pub proof fn law_private_prefixes(i: int, rest: Seq<char>)
    requires
        0 <= i < private_prefixes().len(),
    ensures
        local_or_private(private_prefixes()[i] + rest),
{
    lemma_private_prefix(i);
    let prefix = private_prefixes()[i];
    let lower = text::ascii_lowercase(prefix);
    assert(lower =~= prefix);
    assert(prefix =~= lower.subrange(0, prefix.len() as int));
    assert(private_prefixes()[i].is_prefix_of(lower));
    law_suffix_makes_no_difference(prefix, rest);
}

/// Whether a text consists of decimal digits.
pub open spec fn is_digits(s: Seq<char>) -> bool {
    forall|i: int| 0 <= i < s.len() ==> '0' <= #[trigger] s[i] <= '9'
}

/// Different numbers are written with different digits.
proof fn lemma_two_digits(n: int)
    requires
        10 <= n <= 99,
    ensures
        is_digits(two_digits(n)),
        forall|k: int| 16 <= k <= 31 && #[trigger] two_digits(k) == two_digits(n) ==> k == n,
{
    assert forall|k: int| 16 <= k <= 31 && #[trigger] two_digits(k) == two_digits(n) implies k
        == n by {
        assert(two_digits(k)[0] == two_digits(n)[0] && two_digits(k)[1] == two_digits(n)[1]);
    }
}

/// A URL that starts with 172 after the scheme, and then has a second octet of any number
/// of digits, is detected just where the octet is written as one from 16 to 31.
proof fn lemma_second_octet(base: Seq<char>, octet: Seq<char>, rest: Seq<char>)
    requires
        base == "http://172."@ || base == "https://172."@,
        is_digits(octet),
    ensures
        local_or_private(base + octet + "."@ + rest) <==> exists|k: int|
            16 <= k <= 31 && octet == #[trigger] two_digits(k),
{
    reveal_strlit("http://172.");
    reveal_strlit("https://172.");
    reveal_strlit(".");
    let url = base + octet + "."@ + rest;
    let lower = text::ascii_lowercase(url);
    let n = base.len() as int;
    let m = octet.len() as int;
    assert forall|i: int| 0 <= i < n implies lower[i] == base[i] by {
        assert(url[i] == base[i]);
    }
    assert forall|i: int| 0 <= i < m implies lower[n + i] == octet[i] by {
        assert(url[n + i] == octet[i]);
    }
    assert(url[n + m] == '.');
    assert forall|k: int| 0 <= k < private_prefixes().len() implies !(
    #[trigger] private_prefixes()[k]).is_prefix_of(lower) by {
        lemma_private_prefix(k);
        let prefix = private_prefixes()[k];
        if prefix.is_prefix_of(lower) {
            assert forall|i: int| 0 <= i < prefix.len() implies prefix[i] == lower[i] by {
                assert(lower.subrange(0, prefix.len() as int)[i] == lower[i]);
            }
            assert(prefix[4] == base[4]);
            assert(prefix[n - 4] == base[n - 4] && prefix[n - 3] == base[n - 3]);
        }
    }
    assert forall|k: int| 16 <= k <= 31 implies (#[trigger] starts_with_172(lower, k) <==> octet
        == two_digits(k)) by {
        let http = "http://172."@ + two_digits(k) + "."@;
        let https = "https://172."@ + two_digits(k) + "."@;
        assert forall|prefix: Seq<char>|
            (prefix == http || prefix == https) && #[trigger] prefix.is_prefix_of(
                lower,
            ) implies octet == two_digits(k) by {
            assert forall|i: int| 0 <= i < prefix.len() implies prefix[i] == lower[i] by {
                assert(lower.subrange(0, prefix.len() as int)[i] == lower[i]);
            }
            assert(prefix[4] == lower[4]);
            assert(prefix[n] == lower[n + 0] && prefix[n + 1] == lower[n + 1] && prefix[n + 2]
                == lower[n + 2]);
            if m < 2 {
                assert(lower[n + m] == '.');
            }
            if m > 2 {
                assert(lower[n + 2] == octet[2]);
            }
            assert(octet[0] == lower[n + 0] && octet[1] == lower[n + 1]);
            assert(octet =~= two_digits(k));
        }
        if octet == two_digits(k) {
            let same = base + two_digits(k) + "."@;
            assert(same =~= lower.subrange(0, same.len() as int));
        }
    }
    if exists|k: int| 16 <= k <= 31 && octet == #[trigger] two_digits(k) {
        let k = choose|k: int| 16 <= k <= 31 && octet == #[trigger] two_digits(k);
        assert(starts_with_172(lower, k));
    }
}

/// An address of the form 172.x, with a second octet of two digits, is detected over
/// HTTP just where the octet is from 16 to 31.
pub proof fn law_second_octet_http(octet: int, rest: Seq<char>)
    requires
        10 <= octet <= 99,
    ensures
        local_or_private("http://172."@ + two_digits(octet) + "."@ + rest) <==> 16 <= octet <= 31,
{
    lemma_two_digits(octet);
    lemma_second_octet("http://172."@, two_digits(octet), rest);
}

/// An address of the form 172.x, with a second octet of two digits, is detected over
/// HTTPS just where the octet is from 16 to 31.
pub proof fn law_second_octet_https(octet: int, rest: Seq<char>)
    requires
        10 <= octet <= 99,
    ensures
        local_or_private("https://172."@ + two_digits(octet) + "."@ + rest) <==> 16 <= octet <= 31,
{
    lemma_two_digits(octet);
    lemma_second_octet("https://172."@, two_digits(octet), rest);
}

/// An address of the form 172.x is never detected where the second octet has one digit,
/// three, or any other number of digits than two.
pub proof fn law_octet_of_other_length(octet: Seq<char>, rest: Seq<char>)
    requires
        is_digits(octet),
        octet.len() != 2,
    ensures
        !local_or_private("http://172."@ + octet + "."@ + rest),
        !local_or_private("https://172."@ + octet + "."@ + rest),
{
    lemma_second_octet("http://172."@, octet, rest);
    lemma_second_octet("https://172."@, octet, rest);
}

/// Whether one text starts with another, character by character.
proof fn lemma_prefix(prefix: Seq<char>, s: Seq<char>)
    ensures
        prefix.is_prefix_of(s) <==> prefix.len() <= s.len() && forall|i: int|
            0 <= i < prefix.len() ==> #[trigger] prefix[i] == s[i],
{
    if prefix.is_prefix_of(s) {
        assert forall|i: int| 0 <= i < prefix.len() implies #[trigger] prefix[i] == s[i] by {
            assert(s.subrange(0, prefix.len() as int)[i] == s[i]);
        }
    } else if prefix.len() <= s.len() && forall|i: int|
        0 <= i < prefix.len() ==> #[trigger] prefix[i] == s[i] {
        assert(prefix =~= s.subrange(0, prefix.len() as int));
    }
}

/// A text starts with a scheme and a host just where what follows the scheme starts with
/// the host.
proof fn lemma_scheme_and_host(prefix: Seq<char>, scheme: Seq<char>, host: Seq<char>, rest: Seq<char>)
    requires
        prefix =~= scheme + host,
    ensures
        prefix.is_prefix_of(scheme + rest) <==> host.is_prefix_of(rest),
{
    let url = scheme + rest;
    lemma_prefix(prefix, url);
    lemma_prefix(host, rest);
    if prefix.is_prefix_of(url) {
        assert forall|i: int| 0 <= i < host.len() implies #[trigger] host[i] == rest[i] by {
            assert(prefix[scheme.len() + i] == url[scheme.len() + i]);
        }
    }
    if host.is_prefix_of(rest) {
        assert forall|i: int| 0 <= i < prefix.len() implies #[trigger] prefix[i] == url[i] by {
            if i >= scheme.len() {
                assert(host[i - scheme.len()] == rest[i - scheme.len()]);
            }
        }
    }
}

/// A text does not start with a prefix that differs from it at a place.
proof fn lemma_no_prefix(prefix: Seq<char>, s: Seq<char>, i: int)
    requires
        0 <= i < prefix.len(),
        i < s.len() ==> prefix[i] != s[i],
    ensures
        !prefix.is_prefix_of(s),
{
    lemma_prefix(prefix, s);
}

/// Whether what follows the scheme names the local host or a private network: a loopback
/// address, `localhost`, or an address in 10.0.0.0/8, 192.168.0.0/16 or 172.16.0.0/12.
spec fn names_private_host(rest: Seq<char>) -> bool {
    ||| "127."@.is_prefix_of(rest)
    ||| "localhost"@.is_prefix_of(rest)
    ||| "[::1]"@.is_prefix_of(rest)
    ||| "10."@.is_prefix_of(rest)
    ||| "192.168."@.is_prefix_of(rest)
    ||| {
        &&& "172."@.is_prefix_of(rest)
        &&& rest.len() >= 7
        &&& '0' <= rest[4] <= '9' && '0' <= rest[5] <= '9'
        &&& 16 <= 10 * (rest[4] as int - 48) + (rest[5] as int - 48) <= 31
        &&& rest[6] == '.'
    }
}

/// A second octet of two digits from 16 to 31 and a dot, behind 172 and a dot.
proof fn lemma_private_octet(scheme: Seq<char>, rest: Seq<char>)
    requires
        scheme == "http://"@ || scheme == "https://"@,
    ensures
        (exists|k: int| 16 <= k <= 31 && #[trigger] starts_with_172(scheme + rest, k)) <==> {
            &&& "172."@.is_prefix_of(rest)
            &&& rest.len() >= 7
            &&& '0' <= rest[4] <= '9' && '0' <= rest[5] <= '9'
            &&& 16 <= 10 * (rest[4] as int - 48) + (rest[5] as int - 48) <= 31
            &&& rest[6] == '.'
        },
{
    reveal_strlit("http://");
    reveal_strlit("https://");
    reveal_strlit("172.");
    reveal_strlit("http://172.");
    reveal_strlit("https://172.");
    reveal_strlit(".");
    let url = scheme + rest;
    lemma_prefix("172."@, rest);
    assert forall|k: int| 16 <= k <= 31 implies (#[trigger] starts_with_172(url, k)
        <==> ("172."@ + two_digits(k) + "."@).is_prefix_of(rest)) by {
        let host = "172."@ + two_digits(k) + "."@;
        let http = "http://172."@ + two_digits(k) + "."@;
        let https = "https://172."@ + two_digits(k) + "."@;
        assert(http =~= "http://"@ + host);
        assert(https =~= "https://"@ + host);
        if scheme == "http://"@ {
            lemma_scheme_and_host(http, scheme, host, rest);
            lemma_prefix(http, url);
            lemma_prefix(https, url);
            lemma_prefix(host, rest);
            assert(https[4] == 's' && url[4] == ':');
            assert(!https.is_prefix_of(url));
        } else {
            lemma_scheme_and_host(https, scheme, host, rest);
            lemma_prefix(http, url);
            assert(http[4] == ':' && url[4] == 's');
            assert(!http.is_prefix_of(url));
        }
    }
    if exists|k: int| 16 <= k <= 31 && #[trigger] starts_with_172(url, k) {
        let k = choose|k: int| 16 <= k <= 31 && #[trigger] starts_with_172(url, k);
        let host = "172."@ + two_digits(k) + "."@;
        lemma_prefix(host, rest);
        assert forall|i: int| 0 <= i < 4 implies #[trigger] "172."@[i] == rest[i] by {
            assert(host[i] == "172."@[i]);
        }
        assert(host[4] == two_digits(k)[0] && host[5] == two_digits(k)[1] && host[6] == '.');
    }
    if "172."@.is_prefix_of(rest) && rest.len() >= 7 && '0' <= rest[4] <= '9' && '0' <= rest[5]
        <= '9' && 16 <= 10 * (rest[4] as int - 48) + (rest[5] as int - 48) <= 31 && rest[6] == '.' {
        let k = 10 * (rest[4] as int - 48) + (rest[5] as int - 48);
        let host = "172."@ + two_digits(k) + "."@;
        lemma_prefix(host, rest);
        assert forall|i: int| 0 <= i < host.len() implies #[trigger] host[i] == rest[i] by {
            if i < 4 {
                assert("172."@[i] == rest[i]);
            } else if i < 6 {
                assert(host[i] == two_digits(k)[i - 4]);
            }
        }
        assert(starts_with_172(url, k));
    }
}

/// Over HTTP and over HTTPS alike, a URL is detected just where what follows the scheme
/// names a loopback address, `localhost`, or an address in 10.0.0.0/8, 192.168.0.0/16 or
/// 172.16.0.0/12. Capitals make no difference.
pub proof fn law_private_hosts(rest: Seq<char>)
    ensures
        ({
            let host = text::ascii_lowercase(rest);
            local_or_private("http://"@ + rest) <==> {
                ||| "127."@.is_prefix_of(host)
                ||| "localhost"@.is_prefix_of(host)
                ||| "[::1]"@.is_prefix_of(host)
                ||| "10."@.is_prefix_of(host)
                ||| "192.168."@.is_prefix_of(host)
                ||| {
                    &&& "172."@.is_prefix_of(host)
                    &&& host.len() >= 7
                    &&& '0' <= host[4] <= '9' && '0' <= host[5] <= '9'
                    &&& 16 <= 10 * (host[4] as int - 48) + (host[5] as int - 48) <= 31
                    &&& host[6] == '.'
                }
            }
        }),
        local_or_private("https://"@ + rest) <==> local_or_private("http://"@ + rest),
{
    lemma_private_hosts("http://"@, rest);
    lemma_private_hosts("https://"@, rest);
}

/// The local host and the private networks are detected over both schemes, whatever
/// follows.
pub proof fn law_literal_hosts(rest: Seq<char>)
    ensures
        local_or_private("http://"@ + ("127."@ + rest)),
        local_or_private("https://"@ + ("127."@ + rest)),
        local_or_private("http://"@ + ("localhost"@ + rest)),
        local_or_private("https://"@ + ("localhost"@ + rest)),
        local_or_private("http://"@ + ("[::1]"@ + rest)),
        local_or_private("https://"@ + ("[::1]"@ + rest)),
        local_or_private("http://"@ + ("10."@ + rest)),
        local_or_private("https://"@ + ("10."@ + rest)),
        local_or_private("http://"@ + ("192.168."@ + rest)),
        local_or_private("https://"@ + ("192.168."@ + rest)),
{
    reveal_strlit("127.");
    reveal_strlit("localhost");
    reveal_strlit("[::1]");
    reveal_strlit("10.");
    reveal_strlit("192.168.");
    let hosts = seq!["127."@, "localhost"@, "[::1]"@, "10."@, "192.168."@];
    assert forall|h: int| 0 <= h < 5 implies (#[trigger] hosts[h]).is_prefix_of(
        text::ascii_lowercase(hosts[h] + rest),
    ) by {
        let small = text::ascii_lowercase(hosts[h] + rest);
        lemma_prefix(hosts[h], small);
        assert forall|i: int| 0 <= i < hosts[h].len() implies #[trigger] hosts[h][i]
            == small[i] by {
            assert((hosts[h] + rest)[i] == hosts[h][i]);
        }
    }
    assert(hosts[0] == "127."@ && hosts[1] == "localhost"@ && hosts[2] == "[::1]"@ && hosts[3]
        == "10."@ && hosts[4] == "192.168."@);
    law_private_hosts("127."@ + rest);
    law_private_hosts("localhost"@ + rest);
    law_private_hosts("[::1]"@ + rest);
    law_private_hosts("10."@ + rest);
    law_private_hosts("192.168."@ + rest);
}

proof fn lemma_private_hosts(scheme: Seq<char>, rest: Seq<char>)
    requires
        scheme == "http://"@ || scheme == "https://"@,
    ensures
        local_or_private(scheme + rest) <==> names_private_host(text::ascii_lowercase(rest)),
{
    reveal_strlit("http://");
    reveal_strlit("https://");
    reveal_strlit("127.");
    reveal_strlit("localhost");
    reveal_strlit("[::1]");
    reveal_strlit("10.");
    reveal_strlit("192.168.");
    reveal_strlit("http://127.");
    reveal_strlit("https://127.");
    reveal_strlit("http://localhost");
    reveal_strlit("https://localhost");
    reveal_strlit("http://[::1]");
    reveal_strlit("https://[::1]");
    reveal_strlit("http://10.");
    reveal_strlit("https://10.");
    reveal_strlit("http://192.168.");
    reveal_strlit("https://192.168.");
    let small = text::ascii_lowercase(rest);
    let lower = text::ascii_lowercase(scheme + rest);
    assert(lower =~= scheme + small) by {
        assert forall|i: int| 0 <= i < scheme.len() implies lower[i] == scheme[i] by {
            assert((scheme + rest)[i] == scheme[i]);
        }
    }
    let hosts = seq!["127."@, "localhost"@, "[::1]"@, "10."@, "192.168."@];
    let own = if scheme == "http://"@ {
        0int
    } else {
        1int
    };
    assert("http://"@[4] != "https://"@[4]);
    assert forall|h: int| 0 <= h < 5 implies {
        &&& private_prefixes()[2 * h + own] == scheme + #[trigger] hosts[h]
        &&& private_prefixes()[2 * h + 1 - own].len() > 4
        &&& private_prefixes()[2 * h + 1 - own][4] != lower[4]
    } by {
        assert(private_prefixes()[2 * h + own] =~= scheme + hosts[h]);
    }
    assert forall|h: int| 0 <= h < 5 implies {
        &&& private_prefixes()[2 * h + own].is_prefix_of(lower) <==> (#[trigger] hosts[h]).is_prefix_of(small)
        &&& !private_prefixes()[2 * h + 1 - own].is_prefix_of(lower)
    } by {
        lemma_scheme_and_host(private_prefixes()[2 * h + own], scheme, hosts[h], small);
        lemma_no_prefix(private_prefixes()[2 * h + 1 - own], lower, 4);
    }
    lemma_private_octet(scheme, small);
    if names_private_host(small) {
        if exists|h: int| 0 <= h < 5 && (#[trigger] hosts[h]).is_prefix_of(small) {
            let h = choose|h: int| 0 <= h < 5 && (#[trigger] hosts[h]).is_prefix_of(small);
            assert(private_prefixes()[2 * h + own].is_prefix_of(lower));
        } else {
            assert(!hosts[0].is_prefix_of(small) && !hosts[1].is_prefix_of(small)
                && !hosts[2].is_prefix_of(small) && !hosts[3].is_prefix_of(small)
                && !hosts[4].is_prefix_of(small));
        }
    }
    if exists|i: int|
        0 <= i < private_prefixes().len() && (#[trigger] private_prefixes()[i]).is_prefix_of(
            lower,
        ) {
        let i = choose|i: int|
            0 <= i < private_prefixes().len() && (#[trigger] private_prefixes()[i]).is_prefix_of(
                lower,
            );
        let h = i / 2;
        assert(hosts[h].is_prefix_of(small));
    }
}

/// Only URLs of the two schemes are detected.
pub proof fn law_only_http(url: Seq<char>)
    requires
        local_or_private(url),
    ensures
        "http://"@.is_prefix_of(text::ascii_lowercase(url)) || "https://"@.is_prefix_of(
            text::ascii_lowercase(url),
        ),
{
    reveal_strlit("http://");
    reveal_strlit("https://");
    reveal_strlit("http://127.");
    reveal_strlit("https://127.");
    reveal_strlit("http://localhost");
    reveal_strlit("https://localhost");
    reveal_strlit("http://[::1]");
    reveal_strlit("https://[::1]");
    reveal_strlit("http://10.");
    reveal_strlit("https://10.");
    reveal_strlit("http://192.168.");
    reveal_strlit("https://192.168.");
    reveal_strlit("http://172.");
    reveal_strlit("https://172.");
    let lower = text::ascii_lowercase(url);
    lemma_prefix("http://"@, lower);
    lemma_prefix("https://"@, lower);
    if exists|i: int|
        0 <= i < private_prefixes().len() && (#[trigger] private_prefixes()[i]).is_prefix_of(
            lower,
        ) {
        let i = choose|i: int|
            0 <= i < private_prefixes().len() && (#[trigger] private_prefixes()[i]).is_prefix_of(
                lower,
            );
        let prefix = private_prefixes()[i];
        lemma_prefix(prefix, lower);
        let scheme = if i % 2 == 0 {
            "http://"@
        } else {
            "https://"@
        };
        assert forall|j: int| 0 <= j < scheme.len() implies #[trigger] scheme[j] == lower[j] by {
            assert(prefix[j] == lower[j]);
        }
    } else {
        let k = choose|k: int| 16 <= k <= 31 && #[trigger] starts_with_172(lower, k);
        let http = "http://172."@ + two_digits(k) + "."@;
        let https = "https://172."@ + two_digits(k) + "."@;
        lemma_prefix(http, lower);
        lemma_prefix(https, lower);
        if http.is_prefix_of(lower) {
            assert forall|j: int| 0 <= j < 7 implies #[trigger] "http://"@[j] == lower[j] by {
                assert(http[j] == lower[j]);
            }
        } else {
            assert forall|j: int| 0 <= j < 8 implies #[trigger] "https://"@[j] == lower[j] by {
                assert(https[j] == lower[j]);
            }
        }
    }
}

} // verus!
