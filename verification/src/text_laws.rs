//! What the operations on text, the names of the modes and the variables of the configuration are.

use crate::balancer::{mode_from_text, mode_name, normalized, LoadBalancingMode};
use crate::config::{configures, mode_of, port_of, switch, ConfigError, ConfigVars, ProxyConfig};
use crate::text::{
    ascii_lower, decimal_value, is_decimal, is_white_space, lemma_trimmed_end, lemma_trimmed_start,
    lemma_without_prefixes, lemma_without_suffixes, trimmed, u16_text, without_prefixes,
    without_suffixes,
};
use crate::urls::{opt_string, opt_text};
use vstd::prelude::*;

verus! {

/// White space is what Unicode lists under White_Space: 25 characters, of which six are ASCII.
pub proof fn law_white_space_is_the_unicode_property(c: char)
    ensures
        is_white_space(c) <==> (c as int == 0x09 || c as int == 0x0a || c as int == 0x0b || c as int
            == 0x0c || c as int == 0x0d || c as int == 0x20 || c as int == 0x85 || c as int == 0xa0
            || c as int == 0x1680 || 0x2000 <= c as int <= 0x200a || c as int == 0x2028 || c as int
            == 0x2029 || c as int == 0x202f || c as int == 0x205f || c as int == 0x3000),
{
}

/// Trimming takes off the white space at the two ends and nothing else: where all characters in
/// front of `a` and from `b` on are white space, and those at `a` and in front of `b` are not, what
/// lies between is left.
pub proof fn law_trimming_takes_off_white_space_only(s: Seq<char>, a: int, b: int)
    requires
        0 <= a <= b <= s.len(),
        forall|i: int| 0 <= i < a ==> is_white_space(#[trigger] s[i]),
        forall|i: int| b <= i < s.len() ==> is_white_space(#[trigger] s[i]),
        a < b ==> !is_white_space(s[a]) && !is_white_space(s[b - 1]),
    ensures
        trimmed(s) == s.subrange(a, b),
{
    if a < b {
        lemma_trimmed_start(s, a);
        let rest = s.skip(a);
        assert forall|j: int| b - a <= j < rest.len() implies is_white_space(
            #[trigger] rest[j],
        ) by {
            assert(is_white_space(s[a + j]));
        }
        lemma_trimmed_end(rest, b - a);
        assert(rest.take(b - a) =~= s.subrange(a, b));
    } else {
        lemma_trimmed_start(s, s.len() as int);
        assert(s.skip(s.len() as int) =~= s.subrange(a, b));
        lemma_trimmed_end(s.subrange(a, b), 0);
        assert(s.subrange(a, b).take(0) =~= s.subrange(a, b));
    }
}

/// Lowering moves each of the letters `A` to `Z` by 32 and leaves every other character, and the
/// number of characters, as they are.
pub proof fn law_lowering_changes_ascii_letters_only(s: Seq<char>, i: int)
    requires
        0 <= i < s.len(),
    ensures
        ascii_lower(s).len() == s.len(),
        'A' <= s[i] <= 'Z' ==> ascii_lower(s)[i] as int == s[i] as int + 32,
        !('A' <= s[i] <= 'Z') ==> ascii_lower(s)[i] == s[i],
{
}

/// All copies of a character at the start of a text go, and nothing else does.
pub proof fn law_leading_copies_go(s: Seq<char>, c: char, n: int)
    requires
        0 <= n <= s.len(),
        forall|i: int| 0 <= i < n ==> s[i] == c,
        n < s.len() ==> s[n] != c,
    ensures
        without_prefixes(s, c) == s.skip(n),
{
    lemma_without_prefixes(s, c, n);
}

/// All copies of a character at the end of a text go, and nothing else does.
pub proof fn law_trailing_copies_go(s: Seq<char>, c: char, n: int)
    requires
        0 <= n <= s.len(),
        forall|i: int| n <= i < s.len() ==> s[i] == c,
        n > 0 ==> s[n - 1] != c,
    ensures
        without_suffixes(s, c) == s.take(n),
{
    lemma_without_suffixes(s, c, n);
}

/// A number is written digit by digit: one digit writes itself, and another digit behind a number
/// makes ten times the number and the digit of it, as long as that is below 65536. A plus sign in
/// front changes nothing; any other character anywhere, no digit at all, or a number that is too
/// large write no number, whatever follows.
pub proof fn law_numbers_are_written_in_digits(s: Seq<char>, c: char)
    ensures
        u16_text(Seq::<char>::empty()) is None,
        '0' <= c <= '9' ==> u16_text(seq![c]) == Some((c as int - '0' as int) as u16),
        '0' <= c <= '9' && u16_text(s) is Some ==> u16_text(s.push(c)) == if u16_text(s)->0 * 10 + (
        c as int - '0' as int) <= 65535 {
            Some((u16_text(s)->0 * 10 + (c as int - '0' as int)) as u16)
        } else {
            None
        },
        s.len() > 0 && s != seq!['+'] && u16_text(s) is None ==> u16_text(s.push(c)) is None,
        !('0' <= c <= '9') ==> u16_text(s.push(c)) is None,
        s.len() == 0 || s[0] != '+' ==> u16_text(seq!['+'] + s) == u16_text(s),
{
    lemma_next_digit(s, c);
    lemma_next_digit(Seq::empty(), c);
    assert(Seq::<char>::empty().push(c) =~= seq![c]);
    assert((seq!['+'] + s).skip(1) =~= s);
}

proof fn lemma_next_digit(s: Seq<char>, c: char)
    ensures
        '0' <= c <= '9' && s.len() == 0 ==> u16_text(s.push(c)) == Some(
            (c as int - '0' as int) as u16,
        ),
        '0' <= c <= '9' && u16_text(s) is Some ==> u16_text(s.push(c)) == if u16_text(s)->0 * 10 + (
        c as int - '0' as int) <= 65535 {
            Some((u16_text(s)->0 * 10 + (c as int - '0' as int)) as u16)
        } else {
            None
        },
        s.len() > 0 && s != seq!['+'] && u16_text(s) is None ==> u16_text(s.push(c)) is None,
        !('0' <= c <= '9') ==> u16_text(s.push(c)) is None,
{
    let digits = if s.len() > 0 && s[0] == '+' {
        s.skip(1)
    } else {
        s
    };
    let all = s.push(c);
    let all_digits = if all[0] == '+' {
        all.skip(1)
    } else {
        all
    };
    if s.len() > 0 && s[0] == '+' {
        assert(all_digits =~= digits.push(c));
        if s != seq!['+'] {
            assert(digits.len() > 0) by {
                if s.len() == 1 {
                    assert(s =~= seq!['+']);
                }
            }
        }
    } else if s.len() > 0 {
        assert(all_digits =~= digits.push(c));
    } else {
        assert(c != '+' ==> all_digits =~= seq![c]);
        assert(c == '+' ==> all_digits =~= Seq::<char>::empty());
    }
    if all_digits.len() > 0 {
        assert(all_digits.last() == c);
        assert(all_digits[all_digits.len() - 1] == c);
        if s.len() > 0 {
            assert(all_digits.drop_last() =~= digits);
            if !is_decimal(digits) && digits.len() > 0 {
                let k = choose|k: int|
                    0 <= k < digits.len() && !('0' <= #[trigger] digits[k] <= '9');
                assert(all_digits[k] == digits[k]);
            }
            if is_decimal(digits) && '0' <= c <= '9' {
                assert(is_decimal(all_digits));
                lemma_value_is_not_negative(digits);
            }
        } else {
            assert(all_digits.drop_last() =~= Seq::<char>::empty());
            assert('0' <= c <= '9' ==> is_decimal(all_digits));
            assert(decimal_value(all_digits.drop_last()) == 0);
        }
    }
}

proof fn lemma_value_is_not_negative(digits: Seq<char>)
    requires
        is_decimal(digits) || digits.len() == 0,
    ensures
        decimal_value(digits) >= 0,
    decreases digits.len(),
{
    if digits.len() > 0 {
        let rest = digits.drop_last();
        assert forall|i: int| 0 <= i < rest.len() implies '0' <= #[trigger] rest[i] <= '9' by {
            assert('0' <= digits[i] <= '9');
        }
        lemma_value_is_not_negative(rest);
        assert('0' <= digits[digits.len() - 1] <= '9');
    }
}

/// The names of the modes, after trimming and in lower case: three of one and two of the other, and
/// no others.
pub proof fn law_modes_have_five_names(value: Seq<char>)
    ensures
        normalized(value) == ascii_lower(trimmed(value)),
        mode_from_text(value) == Some(LoadBalancingMode::LeastConn) <==> ascii_lower(trimmed(value))
            == "leastconn"@ || ascii_lower(trimmed(value)) == "least_conn"@ || ascii_lower(
            trimmed(value),
        ) == "least"@,
        mode_from_text(value) == Some(LoadBalancingMode::Queue) <==> ascii_lower(trimmed(value))
            == "queue"@ || ascii_lower(trimmed(value)) == "queued"@,
        mode_name(LoadBalancingMode::LeastConn) == "leastconn"@,
        mode_name(LoadBalancingMode::Queue) == "queue"@,
{
    reveal_strlit("leastconn");
    reveal_strlit("least_conn");
    reveal_strlit("least");
    reveal_strlit("queue");
    reveal_strlit("queued");
    assert("queue"@[0] == 'q');
    assert("queued"@[0] == 'q');
    assert("leastconn"@[0] == 'l');
    assert("least_conn"@[0] == 'l');
    assert("least"@[0] == 'l');
}

/// A switch that is set is on for three words, after trimming and in lower case, and off for all
/// others; one that is not set has its default.
pub proof fn law_switches_are_on_for_three_words(value: Seq<char>, default: bool)
    ensures
        switch(Some(value), default) <==> ascii_lower(trimmed(value)) == "1"@ || ascii_lower(
            trimmed(value),
        ) == "true"@ || ascii_lower(trimmed(value)) == "yes"@,
        switch(None, default) == default,
{
}

/// The port is the number that is given, as it is, and 443 where none is given or what is given is
/// no number; the mode is the one that is named, and `LeastConn` where none is given.
pub proof fn law_port_and_mode_are_those_given(value: Seq<char>)
    ensures
        port_of(None) == 443,
        u16_text(value) is Some ==> port_of(Some(value)) == u16_text(value)->0,
        u16_text(value) is None ==> port_of(Some(value)) == 443,
        mode_of(None) == Some(LoadBalancingMode::LeastConn),
        mode_of(Some(value)) == mode_from_text(value),
{
}

/// The characters of an optional text are those of the text.
pub proof fn law_optional_texts_keep_their_characters(text: &str, string: String)
    ensures
        opt_text(Some(text)) == Some(text@),
        opt_text(None) is None,
        opt_string(Some(string)) == Some(string@),
        opt_string(None) is None,
{
}

/// What the variables of the environment make: there is a configuration exactly where a certificate
/// and a key are given and the mode, if it is given, is named by one of its names; the certificate
/// and the key are those given; what is not given is port 443, all protocols switched on, and
/// `LeastConn`.
pub proof fn law_configuration_is_what_the_variables_say(
    vars: ConfigVars,
    r: Result<ProxyConfig, ConfigError>,
)
    requires
        configures(vars, r),
    ensures
        r is Ok <==> vars.cert is Some && vars.key is Some && (vars.mode is None || mode_from_text(
            vars.mode->0@,
        ) is Some),
        vars.cert is None <==> r matches Err(ConfigError::MissingCert),
        vars.cert is Some && vars.key is None <==> r matches Err(ConfigError::MissingKey),
        r matches Err(ConfigError::UnsupportedMode(message)) ==> message@
            == "unsupported load balancer: "@ + ascii_lower(trimmed(vars.mode->0@)),
        r matches Ok(config) ==> {
            &&& config.cert_pem_base64 == vars.cert->0
            &&& config.key_pem_base64 == vars.key->0
            &&& vars.port is None ==> config.port == 443
            &&& vars.port is Some && u16_text(vars.port->0@) is None ==> config.port == 443
            &&& vars.port is Some && u16_text(vars.port->0@) is Some ==> Some(config.port)
                == u16_text(vars.port->0@)
            &&& vars.enable_h2 is None ==> config.enable_h2
            &&& vars.enable_h3 is None ==> config.enable_h3
            &&& vars.enable_websocket is None ==> config.enable_websocket
            &&& vars.enable_h2 is Some ==> config.enable_h2 == switch(
                Some(vars.enable_h2->0@),
                false,
            )
            &&& vars.enable_h3 is Some ==> config.enable_h3 == switch(
                Some(vars.enable_h3->0@),
                false,
            )
            &&& vars.enable_websocket is Some ==> config.enable_websocket == switch(
                Some(vars.enable_websocket->0@),
                false,
            )
            &&& vars.mode is None ==> config.initial_mode == LoadBalancingMode::LeastConn
            &&& vars.mode is Some ==> mode_from_text(vars.mode->0@) == Some(config.initial_mode)
        },
{
}

} // verus!
