//! The gateway's configuration.

use vstd::prelude::*;

verus! {

/// Settings of one listening HTTP server: request timeout (milliseconds),
/// port and address.
#[derive(Debug, Clone)]
pub struct HttpConf {
    pub timeout: u64,
    pub port: i16,
    pub address: String,
}

/// The gateway's settings, as the configuration script gives them.
#[derive(Debug, Clone)]
pub struct Config {
    pub log_file_path: String,
    pub database_path: String,
    pub log_level: String,
    pub log_to_console: bool,
    pub log_to_file: bool,
    pub log_format_json: bool,
    pub cache_ttl: u64,
    pub auth_url: String,
    pub http_proxy: HttpConf,
    pub admin: HttpConf,
    pub token_header: String,
}

/// The character of the decimal digit `d`.
pub open spec fn digit_char(d: nat) -> char {
    ('0' as u32 + d) as char
}

/// The decimal digits of `n`, most significant first, without leading
/// zeros (`0` for zero).
pub open spec fn decimal_digits(n: nat) -> Seq<char>
    decreases n,
{
    if n < 10 {
        seq![digit_char(n)]
    } else {
        decimal_digits(n / 10) + seq![digit_char(n % 10)]
    }
}

/// The decimal text of `n`, with a leading `-` when it is negative (what
/// `{}` formats for an integer).
pub open spec fn decimal(n: int) -> Seq<char> {
    if n < 0 {
        seq!['-'] + decimal_digits((-n) as nat)
    } else {
        decimal_digits(n as nat)
    }
}

fn digit_text(d: u32) -> (s: &'static str)
    requires
        d < 10,
    ensures
        s@ == seq![digit_char(d as nat)],
{
    proof {
        reveal_strlit("0");
        reveal_strlit("1");
        reveal_strlit("2");
        reveal_strlit("3");
        reveal_strlit("4");
        reveal_strlit("5");
        reveal_strlit("6");
        reveal_strlit("7");
        reveal_strlit("8");
        reveal_strlit("9");
    }
    let s = if d == 0 {
        "0"
    } else if d == 1 {
        "1"
    } else if d == 2 {
        "2"
    } else if d == 3 {
        "3"
    } else if d == 4 {
        "4"
    } else if d == 5 {
        "5"
    } else if d == 6 {
        "6"
    } else if d == 7 {
        "7"
    } else if d == 8 {
        "8"
    } else {
        "9"
    };
    assert(s@ =~= seq![digit_char(d as nat)]);
    s
}

fn append_digits(n: u32, out: &mut String)
    ensures
        final(out)@ == old(out)@ + decimal_digits(n as nat),
    decreases n,
{
    if n >= 10 {
        append_digits(n / 10, out);
    }
    out.append(digit_text(n % 10));
    proof {
        if n >= 10 {
            assert(decimal_digits(n as nat) == decimal_digits((n / 10) as nat) + seq![digit_char((n % 10) as nat)]);
        }
    }
}

/// The decimal text of `n`.
pub fn decimal_text(n: i16) -> (s: String)
    ensures
        s@ == decimal(n as int),
{
    let mut s = String::new();
    if n < 0 {
        let minus = "-";
        proof {
            reveal_strlit("-");
        }
        s.append(minus);
        let m: u32 = (0 - (n as i32)) as u32;
        append_digits(m, &mut s);
        assert(s@ =~= seq!['-'] + decimal_digits((-n) as nat));
    } else {
        append_digits(n as u32, &mut s);
        assert(s@ =~= decimal_digits(n as nat));
    }
    s
}

impl HttpConf {
    /// The text `address:port` that the server listens on.
    pub fn listen_address(&self) -> (s: String)
        ensures
            s@ == self.address@ + seq![':'] + decimal(self.port as int),
    {
        let colon = ":";
        proof {
            reveal_strlit(":");
        }
        let port = decimal_text(self.port);
        let s = self.address.clone().concat(colon).concat(port.as_str());
        assert(s@ =~= self.address@ + seq![':'] + decimal(self.port as int));
        s
    }
}

} // verus!
