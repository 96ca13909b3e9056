use vstd::prelude::*;

verus! {

/// Settings read from `config.yaml` beside the executable.
#[derive(Clone, Copy, Debug, PartialEq, Eq, Structural)]
pub struct Config {
    /// Seconds of cursor absence before a monitor dims. Set to 0 for instant.
    pub idle_delay_seconds: u64,
    /// Brightness to restore when a monitor becomes active (0-100).
    pub active_brightness: u32,
    /// Brightness to set when a monitor becomes inactive (0-100).
    pub inactive_brightness: u32,
    /// Enable the Win+Shift+B hotkey to toggle Screen Light on/off.
    pub hotkey_enabled: bool,
}

/// The settings used when no configuration file exists or it cannot be parsed.
pub open spec fn default_config() -> Config {
    Config {
        idle_delay_seconds: 1,
        active_brightness: 75,
        inactive_brightness: 0,
        hotkey_enabled: true,
    }
}

impl Default for Config {
    fn default() -> (c: Self)
        ensures
            c == default_config(),
    {
        Config {
            idle_delay_seconds: 1,
            active_brightness: 75,
            inactive_brightness: 0,
            hotkey_enabled: true,
        }
    }
}


/// The decimal digit `d` (0-9) as a character.
pub open spec fn digit_char(d: int) -> char {
    if d == 0 { '0' } else if d == 1 { '1' } else if d == 2 { '2' } else if d == 3 { '3' }
    else if d == 4 { '4' } else if d == 5 { '5' } else if d == 6 { '6' } else if d == 7 { '7' }
    else if d == 8 { '8' } else { '9' }
}

/// The decimal notation of `n`, without leading zeros.
pub open spec fn decimal(n: nat) -> Seq<char>
    decreases n,
{
    if n < 10 {
        seq![digit_char(n as int)]
    } else {
        decimal(n / 10) + seq![digit_char((n % 10) as int)]
    }
}

/// The number a string of decimal digits denotes.
pub open spec fn decimal_value(s: Seq<char>) -> int
    decreases s.len(),
{
    if s.len() == 0 {
        0
    } else {
        decimal_value(s.drop_last()) * 10 + (s.last() as int - '0' as int)
    }
}

proof fn lemma_digit_char(d: int)
    requires
        0 <= d < 10,
    ensures
        digit_char(d) as int == '0' as int + d,
        '0' <= digit_char(d) <= '9',
        d != 0 ==> digit_char(d) != '0',
{
    assert('0' as int == 48 && '1' as int == 49 && '2' as int == 50 && '3' as int == 51 && '4' as int == 52);
    assert('5' as int == 53 && '6' as int == 54 && '7' as int == 55 && '8' as int == 56 && '9' as int == 57);
}

/// Law: `decimal(n)` is a string of decimal digits that denotes `n`, a single digit
/// exactly when `n < 10`, and starting with `0` only for `n == 0` (no leading zero).
pub proof fn lemma_decimal_denotes(n: nat)
    ensures
        decimal_value(decimal(n)) == n,
        decimal(n).len() > 0,
        forall|i: int| 0 <= i < decimal(n).len() ==> '0' <= #[trigger] decimal(n)[i] <= '9',
        n > 0 ==> decimal(n)[0] != '0',
        n < 10 <==> decimal(n).len() == 1,
    decreases n,
{
    if n >= 10 {
        lemma_digit_char((n % 10) as int);
        lemma_decimal_denotes(n / 10);
        assert(n / 10 >= 1 && n % 10 < 10) by (nonlinear_arith)
            requires n >= 10;
        if n / 10 < 10 {
            lemma_digit_char((n / 10) as int);
            assert(decimal(n / 10) == seq![digit_char((n / 10) as int)]);
        }
        let d = decimal(n);
        assert(decimal_value(d) == decimal_value(d.drop_last()) * 10 + (d.last() as int - '0' as int));
        assert(d.drop_last() == decimal(n / 10));
        assert(d.last() == digit_char((n % 10) as int));
        assert((n / 10) * 10 + n % 10 == n) by (nonlinear_arith);
        assert forall|i: int| 0 <= i < d.len() implies '0' <= #[trigger] d[i] <= '9' by {
            if i < d.len() - 1 {
                assert(d[i] == decimal(n / 10)[i]);
            }
        }
        assert(d[0] == decimal(n / 10)[0]);
    } else {
        lemma_digit_char(n as int);
        assert(decimal(n).drop_last() =~= Seq::<char>::empty());
        assert(decimal_value(Seq::<char>::empty()) == 0);
    }
}

/// `true` or `false`, as YAML writes them.
pub open spec fn bool_text(b: bool) -> Seq<char> {
    if b { "true"@ } else { "false"@ }
}

/// The text of the configuration file written for `c`.
pub open spec fn config_text(c: Config) -> Seq<char> {
    "idle_delay_seconds: "@ + decimal(c.idle_delay_seconds as nat)
        + "\nactive_brightness: "@ + decimal(c.active_brightness as nat)
        + "\ninactive_brightness: "@ + decimal(c.inactive_brightness as nat)
        + "\n\n# Win+Shift+B to toggle Screen Light on/off.\nhotkey_enabled: "@ + bool_text(c.hotkey_enabled)
        + "\n"@
}

fn digit_str(d: u64) -> (s: &'static str)
    requires
        d < 10,
    ensures
        s@ == seq![digit_char(d as int)],
{
    proof {
        reveal_strlit("0"); reveal_strlit("1"); reveal_strlit("2"); reveal_strlit("3"); reveal_strlit("4");
        reveal_strlit("5"); reveal_strlit("6"); reveal_strlit("7"); reveal_strlit("8"); reveal_strlit("9");
    }
    if d == 0 { "0" } else if d == 1 { "1" } else if d == 2 { "2" } else if d == 3 { "3" }
    else if d == 4 { "4" } else if d == 5 { "5" } else if d == 6 { "6" } else if d == 7 { "7" }
    else if d == 8 { "8" } else { "9" }
}

/// Appends the decimal notation of `n` to `out`.
fn push_decimal(out: &mut String, n: u64)
    ensures
        final(out)@ == old(out)@ + decimal(n as nat),
    decreases n,
{
    if n >= 10 {
        push_decimal(out, n / 10);
    }
    out.append(digit_str(n % 10));
    proof {
        if n >= 10 {
            assert(final(out)@ =~= old(out)@ + decimal(n as nat));
        }
    }
}

/// The text of the configuration file for `c`: one `key: value` line per setting and a
/// comment above the hotkey setting. The default configuration is written this way when
/// no file exists or the file cannot be read.
pub fn config_file_text(c: &Config) -> (text: String)
    ensures
        text@ == config_text(*c),
{
    let mut text = String::new();
    text.append("idle_delay_seconds: ");
    push_decimal(&mut text, c.idle_delay_seconds);
    text.append("\nactive_brightness: ");
    push_decimal(&mut text, c.active_brightness as u64);
    text.append("\ninactive_brightness: ");
    push_decimal(&mut text, c.inactive_brightness as u64);
    text.append("\n\n# Win+Shift+B to toggle Screen Light on/off.\nhotkey_enabled: ");
    if c.hotkey_enabled {
        text.append("true");
    } else {
        text.append("false");
    }
    text.append("\n");
    proof {
        assert(text@ =~= config_text(*c));
    }
    text
}

/// The name of the configuration file, which lies beside the executable.
pub const CONFIG_FILE_NAME: &'static str = "config.yaml";

} // verus!
