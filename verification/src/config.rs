//! The service configuration shared by the daemon and the CLI, and the
//! `key = value` configuration file that adjusts it.

use vstd::prelude::*;

use crate::errors::WattchError;
use crate::numeric::{
    digit_value, parse_u32, parse_u32_octal, scan_digits, spec_parse_u32, spec_parse_uint,
    IntErrorKind,
};
use crate::text::{
    chars_eq, chars_of, debug_str, decimal, find_char, first_index_of, lemma_first_index_of,
    is_whitespace, lemma_trim_start_skip, push_decimal, push_str, str_debug, string_of, trim,
    trim_chars,
};

verus! {

/// Where the configuration file is read from by default.
pub const DEFAULT_CONFIG_PATH: &'static str = "/etc/wattch/wattch.conf";

/// Where the daemon listens by default.
pub const DEFAULT_SOCKET_PATH: &'static str = "/run/wattch/wattch.sock";

/// The permission bits of the daemon's socket by default (`0o600`).
pub const DEFAULT_SOCKET_MODE: u32 = 0o600;

/// The root of the Linux powercap tree.
pub const PRODUCTION_POWER_CAP_ROOT: &'static str = "/sys/devices/virtual/powercap";

/// Where the daemon listens, who may connect, and where RAPL zones live.
#[derive(Clone, Debug, PartialEq, Eq)]
pub struct ServiceConfig {
    pub socket_path: String,
    pub socket_mode: u32,
    pub socket_uid: Option<u32>,
    pub socket_gid: Option<u32>,
    pub powercap_root: String,
}

/// A [`ServiceConfig`] as plain values.
pub struct ServiceConfigView {
    pub socket_path: Seq<char>,
    pub socket_mode: u32,
    pub socket_uid: Option<u32>,
    pub socket_gid: Option<u32>,
    pub powercap_root: Seq<char>,
}

impl View for ServiceConfig {
    type V = ServiceConfigView;

    open spec fn view(&self) -> ServiceConfigView {
        ServiceConfigView {
            socket_path: self.socket_path@,
            socket_mode: self.socket_mode,
            socket_uid: self.socket_uid,
            socket_gid: self.socket_gid,
            powercap_root: self.powercap_root@,
        }
    }
}

/// The configuration before any file, environment or sudo caller is
/// consulted.
pub open spec fn default_config() -> ServiceConfigView {
    ServiceConfigView {
        socket_path: DEFAULT_SOCKET_PATH@,
        socket_mode: DEFAULT_SOCKET_MODE,
        socket_uid: None,
        socket_gid: None,
        powercap_root: PRODUCTION_POWER_CAP_ROOT@,
    }
}

impl Default for ServiceConfig {
    /// The default socket path and mode and the production powercap root,
    /// with no socket owner. The `sudo` caller's ids, which the environment
    /// holds, are applied by `with_sudo_ids` and `resolve`, which take them
    /// as arguments.
    fn default() -> (r: Self)
        ensures
            r@ == default_config(),
    {
        ServiceConfig {
            socket_path: DEFAULT_SOCKET_PATH.to_string(),
            socket_mode: DEFAULT_SOCKET_MODE,
            socket_uid: None,
            socket_gid: None,
            powercap_root: PRODUCTION_POWER_CAP_ROOT.to_string(),
        }
    }
}

/// The id that a `SUDO_UID` / `SUDO_GID` value names, if it is a `u32`.
pub open spec fn sudo_id(value: Option<Seq<char>>) -> Option<u32> {
    match value {
        Some(v) => match spec_parse_u32(v) {
            Ok(n) => Some(n as u32),
            Err(_) => None,
        },
        None => None,
    }
}

/// The part of a configuration line before its first `#`.
pub open spec fn before_comment(line: Seq<char>) -> Seq<char> {
    match first_index_of(line, '#') {
        Some(i) => line.take(i as int),
        None => line,
    }
}

/// The text before and after the first `=`, if there is one.
pub open spec fn split_at_equals(s: Seq<char>) -> Option<(Seq<char>, Seq<char>)> {
    match first_index_of(s, '=') {
        Some(i) => Some((s.take(i as int), s.skip(i as int + 1))),
        None => None,
    }
}

/// `v` without one pair of enclosing double quotes, or else without one
/// pair of enclosing single quotes.
pub open spec fn spec_unquote(v: Seq<char>) -> Seq<char> {
    if v.len() >= 2 && v[0] == '"' && v.last() == '"' {
        v.subrange(1, v.len() - 1)
    } else if v.len() >= 2 && v[0] == '\'' && v.last() == '\'' {
        v.subrange(1, v.len() - 1)
    } else {
        v
    }
}

/// The octal digits of a `socket_mode` value: without a `0o`/`0O` prefix,
/// then without one leading `0`.
pub open spec fn socket_mode_digits(v: Seq<char>) -> Seq<char> {
    let a = if v.len() >= 2 && v[0] == '0' && (v[1] == 'o' || v[1] == 'O') {
        v.skip(2)
    } else {
        v
    };
    if a.len() >= 1 && a[0] == '0' {
        a.drop_first()
    } else {
        a
    }
}

/// The mode a `socket_mode` value gives, or the error message.
pub open spec fn socket_mode_value(v: Seq<char>) -> Result<u32, Seq<char>> {
    let digits = socket_mode_digits(v);
    match spec_parse_uint(digits, 8, u32::MAX as nat) {
        Ok(n) => Ok(n as u32),
        Err(k) => Err(
            "invalid socket_mode value "@ + debug_str(digits) + ": "@ + k.spec_message(),
        ),
    }
}

/// The id a `socket_uid` / `socket_gid` value gives, or the error message.
pub open spec fn id_value(name: Seq<char>, v: Seq<char>) -> Result<u32, Seq<char>> {
    match spec_parse_u32(v) {
        Ok(n) => Ok(n as u32),
        Err(k) => Err("invalid "@ + name + " value "@ + debug_str(v) + ": "@ + k.spec_message()),
    }
}

/// What one configuration line (numbered `line_index + 1`) does to `cfg`:
/// comments and blank lines change nothing, unknown keys are ignored, a
/// line without `=` is refused.
pub open spec fn apply_config_line(cfg: ServiceConfigView, line: Seq<char>, line_index: nat) -> Result<
    ServiceConfigView,
    Seq<char>,
> {
    let l = trim(before_comment(line));
    if l.len() == 0 {
        Ok(cfg)
    } else {
        match split_at_equals(l) {
            None => Err(
                "invalid config line "@ + decimal(line_index + 1) + ": expected key = value"@,
            ),
            Some((k, v)) => {
                let key = trim(k);
                let value = spec_unquote(trim(v));
                if key == "socket_path"@ {
                    Ok(ServiceConfigView { socket_path: value, ..cfg })
                } else if key == "socket_mode"@ {
                    match socket_mode_value(value) {
                        Ok(m) => Ok(ServiceConfigView { socket_mode: m, ..cfg }),
                        Err(e) => Err(e),
                    }
                } else if key == "socket_uid"@ {
                    match id_value("socket_uid"@, value) {
                        Ok(id) => Ok(ServiceConfigView { socket_uid: Some(id), ..cfg }),
                        Err(e) => Err(e),
                    }
                } else if key == "socket_gid"@ {
                    match id_value("socket_gid"@, value) {
                        Ok(id) => Ok(ServiceConfigView { socket_gid: Some(id), ..cfg }),
                        Err(e) => Err(e),
                    }
                } else if key == "powercap_root"@ {
                    Ok(ServiceConfigView { powercap_root: value, ..cfg })
                } else {
                    Ok(cfg)
                }
            },
        }
    }
}

/// The first line of `s` (as `str::lines` cuts it: at `\n`, dropping a
/// `\r` just before it) and the text after it.
pub open spec fn first_line(s: Seq<char>) -> (Seq<char>, Seq<char>) {
    match first_index_of(s, '\n') {
        Some(i) => {
            let l = s.take(i as int);
            if l.len() > 0 && l.last() == '\r' {
                (l.drop_last(), s.skip(i as int + 1))
            } else {
                (l, s.skip(i as int + 1))
            }
        },
        None => (s, Seq::empty()),
    }
}

/// Applies the lines of `s`, the first of them numbered `line_index + 1`,
/// in order; stops at the first refused line with its message, leaving the
/// configuration as the lines before it made it.
pub open spec fn apply_config_text(cfg: ServiceConfigView, s: Seq<char>, line_index: nat) -> (
    ServiceConfigView,
    Option<Seq<char>>,
)
    decreases s.len(),
{
    if s.len() == 0 {
        (cfg, None)
    } else {
        proof {
            lemma_first_index_of(s, '\n');
        }
        match apply_config_line(cfg, first_line(s).0, line_index) {
            Ok(c) => apply_config_text(c, first_line(s).1, (line_index + 1) as nat),
            Err(m) => (cfg, Some(m)),
        }
    }
}

/// `value` without one pair of enclosing quotes.
fn unquote(value: &[char]) -> (r: &[char])
    ensures
        r@ == spec_unquote(value@),
{
    let n = value.len();
    if n >= 2 && value[0] == '"' && value[n - 1] == '"' {
        return vstd::slice::slice_subrange(value, 1, n - 1);
    }
    if n >= 2 && value[0] == '\'' && value[n - 1] == '\'' {
        return vstd::slice::slice_subrange(value, 1, n - 1);
    }
    value
}

/// Parses a `socket_mode` value as octal, with or without a `0o` or `0`
/// prefix.
fn parse_socket_mode(value: &[char]) -> (r: Result<u32, WattchError>)
    ensures
        match socket_mode_value(value@) {
            Ok(m) => r == Ok::<u32, WattchError>(m),
            Err(e) => r matches Err(WattchError::BadRequest(x)) && x@ == e,
        },
{
    let n = value.len();
    let a: &[char] = if n >= 2 && value[0] == '0' && (value[1] == 'o' || value[1] == 'O') {
        vstd::slice::slice_subrange(value, 2, n)
    } else {
        value
    };
    let b: &[char] = if a.len() >= 1 && a[0] == '0' {
        vstd::slice::slice_subrange(a, 1, a.len())
    } else {
        a
    };
    assert(b@ == socket_mode_digits(value@));
    match parse_u32_octal(b) {
        Ok(m) => Ok(m),
        Err(k) => {
            let mut message = "invalid socket_mode value ".to_string();
            let digits = string_of(b);
            let shown = str_debug(digits.as_str());
            push_str(&mut message, shown.as_str());
            push_str(&mut message, ": ");
            let reason = k.to_string();
            push_str(&mut message, reason.as_str());
            Err(WattchError::BadRequest(message))
        },
    }
}

/// Parses a decimal user or group id; `name` is the key, for the message.
fn parse_id(name: &str, value: &[char]) -> (r: Result<u32, WattchError>)
    ensures
        match id_value(name@, value@) {
            Ok(id) => r == Ok::<u32, WattchError>(id),
            Err(e) => r matches Err(WattchError::BadRequest(x)) && x@ == e,
        },
{
    match parse_u32(value) {
        Ok(id) => Ok(id),
        Err(k) => {
            let mut message = "invalid ".to_string();
            push_str(&mut message, name);
            push_str(&mut message, " value ");
            let text = string_of(value);
            let shown = str_debug(text.as_str());
            push_str(&mut message, shown.as_str());
            push_str(&mut message, ": ");
            let reason = k.to_string();
            push_str(&mut message, reason.as_str());
            Err(WattchError::BadRequest(message))
        },
    }
}

/// Applies one configuration line, numbered `line_index + 1`.
fn apply_line(config: &mut ServiceConfig, line: &[char], line_index: usize) -> (r: Result<
    (),
    WattchError,
>)
    requires
        line_index < usize::MAX,
    ensures
        match apply_config_line(old(config)@, line@, line_index as nat) {
            Ok(c) => r is Ok && final(config)@ == c,
            Err(m) => (r matches Err(WattchError::BadRequest(x)) && x@ == m) && final(config)@
                == old(config)@,
        },
{
    proof {
        lemma_first_index_of(line@, '#');
    }
    let before = match find_char(line, '#') {
        Some(i) => vstd::slice::slice_subrange(line, 0, i),
        None => line,
    };
    assert(before@ == before_comment(line@));
    let l = trim_chars(before);
    if l.len() == 0 {
        return Ok(());
    }
    let eq = match find_char(l, '=') {
        Some(i) => i,
        None => {
            proof {
                lemma_first_index_of(l@, '=');
            }
            let mut message = "invalid config line ".to_string();
            push_decimal(&mut message, (line_index + 1) as u64);
            push_str(&mut message, ": expected key = value");
            return Err(WattchError::BadRequest(message));
        },
    };
    proof {
        lemma_first_index_of(l@, '=');
    }
    let key = trim_chars(vstd::slice::slice_subrange(l, 0, eq));
    let value = unquote(trim_chars(vstd::slice::slice_subrange(l, eq + 1, l.len())));
    let socket_path = chars_of("socket_path");
    let socket_mode = chars_of("socket_mode");
    let socket_uid = chars_of("socket_uid");
    let socket_gid = chars_of("socket_gid");
    let powercap_root = chars_of("powercap_root");
    if chars_eq(key, socket_path.as_slice()) {
        config.socket_path = string_of(value);
    } else if chars_eq(key, socket_mode.as_slice()) {
        config.socket_mode = parse_socket_mode(value)?;
    } else if chars_eq(key, socket_uid.as_slice()) {
        config.socket_uid = Some(parse_id("socket_uid", value)?);
    } else if chars_eq(key, socket_gid.as_slice()) {
        config.socket_gid = Some(parse_id("socket_gid", value)?);
    } else if chars_eq(key, powercap_root.as_slice()) {
        config.powercap_root = string_of(value);
    }
    Ok(())
}

/// Applies a configuration file's text to `config`, line by line; stops at
/// the first line it refuses, with the lines before it applied.
pub fn apply_config_file(config: &mut ServiceConfig, contents: &str) -> (r: Result<(), WattchError>)
    ensures
        final(config)@ == apply_config_text(old(config)@, contents@, 0).0,
        apply_config_text(old(config)@, contents@, 0).1 is None ==> r is Ok,
        apply_config_text(old(config)@, contents@, 0).1 matches Some(m) ==> (r matches Err(
            WattchError::BadRequest(x),
        ) && x@ == m),
{
    let chars = chars_of(contents);
    let n = chars.len();
    let mut pos: usize = 0;
    let mut line_index: usize = 0;
    let ghost start = config@;
    assert(chars@.skip(0) =~= chars@);
    while pos < n
        invariant
            pos <= n,
            n == chars@.len(),
            chars@ == contents@,
            line_index <= pos,
            start == old(config)@,
            apply_config_text(start, contents@, 0) == apply_config_text(
                config@,
                chars@.skip(pos as int),
                line_index as nat,
            ),
        decreases n - pos,
    {
        let rest = vstd::slice::slice_subrange(chars.as_slice(), pos, n);
        let ghost s = chars@.skip(pos as int);
        assert(rest@ == s);
        proof {
            lemma_first_index_of(s, '\n');
        }
        let (line, next) = match find_char(rest, '\n') {
            Some(i) => {
                let raw = vstd::slice::slice_subrange(chars.as_slice(), pos, pos + i);
                assert(raw@ == s.take(i as int));
                if i > 0 && chars[pos + i - 1] == '\r' {
                    let trimmed = vstd::slice::slice_subrange(chars.as_slice(), pos, pos + i - 1);
                    assert(trimmed@ == s.take(i as int).drop_last());
                    (trimmed, pos + i + 1)
                } else {
                    (raw, pos + i + 1)
                }
            },
            None => {
                assert(rest@ == s);
                (rest, n)
            },
        };
        assert(line@ == first_line(s).0);
        assert(chars@.skip(next as int) == first_line(s).1);
        let ghost before = config@;
        let outcome = apply_line(config, line, line_index);
        assert(apply_config_text(before, s, line_index as nat) == match apply_config_line(
            before,
            first_line(s).0,
            line_index as nat,
        ) {
            Ok(c) => apply_config_text(c, first_line(s).1, (line_index + 1) as nat),
            Err(m) => (before, Some(m)),
        });
        match outcome {
            Ok(()) => {},
            Err(e) => {
                proof {
                    assert(apply_config_line(before, first_line(s).0, line_index as nat) is Err);
                    assert(config@ == before);
                    assert(start == old(config)@);
                }
                return Err(e);
            },
        }
        pos = next;
        line_index += 1;
    }
    assert(chars@.skip(pos as int) =~= Seq::<char>::empty());
    Ok(())
}

} // verus!

verus! {

/// The text an optional string slice holds.
pub open spec fn opt_chars(o: Option<&str>) -> Option<Seq<char>> {
    match o {
        Some(s) => Some(s@),
        None => None,
    }
}

/// The default configuration with the socket handed to the caller that
/// `sudo` names in `SUDO_UID` / `SUDO_GID` (a value that is no `u32` is
/// ignored).
pub open spec fn sudo_default_config(sudo_uid: Option<Seq<char>>, sudo_gid: Option<Seq<char>>) -> ServiceConfigView {
    ServiceConfigView {
        socket_uid: sudo_id(sudo_uid),
        socket_gid: sudo_id(sudo_gid),
        ..default_config()
    }
}

/// The id a `SUDO_UID` / `SUDO_GID` value names, if any.
fn parse_sudo_id(value: Option<&str>) -> (r: Option<u32>)
    ensures
        r == sudo_id(opt_chars(value)),
{
    match value {
        Some(text) => {
            let chars = chars_of(text);
            match parse_u32(chars.as_slice()) {
                Ok(id) => Some(id),
                Err(_) => None,
            }
        },
        None => None,
    }
}

impl ServiceConfig {
    /// The default configuration, with the socket owned by the `sudo`
    /// caller whose `SUDO_UID` / `SUDO_GID` values are given.
    pub fn with_sudo_ids(sudo_uid: Option<&str>, sudo_gid: Option<&str>) -> (r: Self)
        ensures
            r@ == sudo_default_config(opt_chars(sudo_uid), opt_chars(sudo_gid)),
    {
        let mut config = ServiceConfig::default();
        config.socket_uid = parse_sudo_id(sudo_uid);
        config.socket_gid = parse_sudo_id(sudo_gid);
        config
    }

    /// Resolves the configuration from what the environment and the file
    /// system hold: the `sudo` caller's ids, the configuration file's text
    /// (`None` where there is no file), and the `WATTCH_SOCKET` and
    /// `WATTCH_POWER_CAP_ROOT` overrides, which win over the file.
    pub fn resolve(
        sudo_uid: Option<&str>,
        sudo_gid: Option<&str>,
        contents: Option<&str>,
        socket_path_override: Option<&str>,
        powercap_root_override: Option<&str>,
    ) -> (r: Result<Self, WattchError>)
        ensures
            ({
                let base = sudo_default_config(opt_chars(sudo_uid), opt_chars(sudo_gid));
                let applied = match contents {
                    Some(t) => apply_config_text(base, t@, 0),
                    None => (base, None),
                };
                &&& applied.1 matches Some(m) ==> (r matches Err(WattchError::BadRequest(x)) && x@
                    == m)
                &&& applied.1 is None ==> r is Ok && r->Ok_0@ == ServiceConfigView {
                    socket_path: match socket_path_override {
                        Some(p) => p@,
                        None => applied.0.socket_path,
                    },
                    powercap_root: match powercap_root_override {
                        Some(p) => p@,
                        None => applied.0.powercap_root,
                    },
                    ..applied.0
                }
            }),
    {
        let mut config = ServiceConfig::with_sudo_ids(sudo_uid, sudo_gid);
        if let Some(text) = contents {
            apply_config_file(&mut config, text)?;
        }
        if let Some(path) = socket_path_override {
            config.socket_path = path.to_string();
        }
        if let Some(root) = powercap_root_override {
            config.powercap_root = root.to_string();
        }
        Ok(config)
    }
}

} // verus!

verus! {

/// Blank lines, and lines whose first non-blank character is `#`, leave
/// the configuration as it is.
pub proof fn lemma_comment_line_ignored(cfg: ServiceConfigView, line: Seq<char>, line_index: nat, k: int)
    requires
        0 <= k <= line.len(),
        forall|j: int| 0 <= j < k ==> is_whitespace(line[j]),
        k == line.len() || line[k] == '#',
    ensures
        apply_config_line(cfg, line, line_index) == Ok::<ServiceConfigView, Seq<char>>(cfg),
{
    lemma_first_index_of(line, '#');
    let before = before_comment(line);
    match first_index_of(line, '#') {
        Some(i) => {
            if k < line.len() {
                assert(i <= k);
            } else {
                assert(is_whitespace(line[i as int]));
            }
            assert(before.len() == i);
        },
        None => {
            if k < line.len() {
                assert(line[k] == '#');
            }
        },
    }
    assert(forall|j: int| 0 <= j < before.len() ==> is_whitespace(before[j]));
    lemma_trim_start_skip(before, before.len() as int);
    assert(before.skip(before.len() as int) =~= Seq::<char>::empty());
    assert(trim(before) =~= Seq::<char>::empty());
}

} // verus!

verus! {

/// Whether every character of `d` is an octal digit.
pub open spec fn octal_digits(d: Seq<char>) -> bool {
    forall|i: int| 0 <= i < d.len() ==> '0' <= #[trigger] d[i] && d[i] <= '7'
}

/// The number the octal digits `d` spell, most significant first.
pub open spec fn base8_value(d: Seq<char>) -> nat
    decreases d.len(),
{
    if d.len() == 0 {
        0
    } else {
        base8_value(d.drop_last()) * 8 + ((d.last() as int) - 48) as nat
    }
}

/// Reading one more digit multiplies what was read by the radix and adds
/// the digit.
proof fn lemma_scan_push(p: Seq<char>, c: char, r: nat, max: nat, acc: nat, v: nat, x: nat)
    requires
        scan_digits(p, r, max, acc) == Ok::<nat, IntErrorKind>(v),
        digit_value(c, r) == Some(x),
        v * r + x <= max,
    ensures
        scan_digits(p.push(c), r, max, acc) == Ok::<nat, IntErrorKind>(v * r + x),
    decreases p.len(),
{
    if p.len() == 0 {
        assert(p.push(c) =~= seq![c]);
        assert(seq![c].drop_first() =~= Seq::<char>::empty());
        assert(v == acc);
        assert(seq![c][0] == c);
        assert(scan_digits(Seq::<char>::empty(), r, max, acc * r + x) == Ok::<nat, IntErrorKind>(
            acc * r + x,
        ));
    } else {
        let y = digit_value(p[0], r)->0;
        assert(p.push(c).drop_first() =~= p.drop_first().push(c));
        assert(p.push(c)[0] == p[0]);
        lemma_scan_push(p.drop_first(), c, r, max, acc * r + y, v, x);
    }
}

/// A leading `0` does not change an octal number.
proof fn lemma_base8_leading_zero(t: Seq<char>)
    ensures
        base8_value(seq!['0'] + t) == base8_value(t),
    decreases t.len(),
{
    if t.len() == 0 {
        assert(seq!['0'] + t =~= seq!['0']);
        assert(seq!['0'].drop_last() =~= Seq::<char>::empty());
        assert(seq!['0'].last() == '0');
        assert(('0' as int) - 48 == 0);
        assert(base8_value(Seq::<char>::empty()) == 0);
    } else {
        assert((seq!['0'] + t).drop_last() =~= seq!['0'] + t.drop_last());
        assert((seq!['0'] + t).last() == t.last());
        lemma_base8_leading_zero(t.drop_last());
    }
}

/// Octal digits that spell a `u32` parse in base 8 to the number they
/// spell.
proof fn lemma_parse_octal(d: Seq<char>)
    requires
        d.len() > 0,
        octal_digits(d),
        base8_value(d) <= u32::MAX,
    ensures
        spec_parse_uint(d, 8, u32::MAX as nat) == Ok::<nat, IntErrorKind>(base8_value(d)),
{
    lemma_scan_octal(d);
    assert('0' <= d[0] && d[0] <= '7');
    assert(d != seq!['+'] && d != seq!['-']) by {
        if d == seq!['+'] || d == seq!['-'] {
            assert(d[0] == seq!['+'][0] || d[0] == seq!['-'][0]);
        }
    }
}

proof fn lemma_scan_octal(d: Seq<char>)
    requires
        octal_digits(d),
        base8_value(d) <= u32::MAX,
    ensures
        scan_digits(d, 8, u32::MAX as nat, 0) == Ok::<nat, IntErrorKind>(base8_value(d)),
    decreases d.len(),
{
    if d.len() > 0 {
        let p = d.drop_last();
        let c = d.last();
        assert(octal_digits(p)) by {
            assert forall|i: int| 0 <= i < p.len() implies '0' <= #[trigger] p[i] && p[i] <= '7' by {
                assert(p[i] == d[i]);
            }
        }
        assert('0' <= d[d.len() - 1] && d[d.len() - 1] <= '7');
        lemma_scan_octal(p);
        assert(p.push(c) =~= d);
        lemma_scan_push(p, c, 8, u32::MAX as nat, 0, base8_value(p), ((c as int) - 48) as nat);
    }
}

/// A `socket_mode` value made of octal digits gives the number they spell
/// in base 8, with or without a leading `0`, `0o` or `0O` (a lone `0`
/// leaves no digits after its prefix and is refused).
pub proof fn lemma_socket_mode_is_octal(d: Seq<char>)
    requires
        d.len() > 0,
        d != seq!['0'],
        octal_digits(d),
        base8_value(d) <= u32::MAX,
    ensures
        socket_mode_value(d) == Ok::<u32, Seq<char>>(base8_value(d) as u32),
        socket_mode_value(seq!['0'] + d) == Ok::<u32, Seq<char>>(base8_value(d) as u32),
        socket_mode_value(seq!['0', 'o'] + d) == Ok::<u32, Seq<char>>(base8_value(d) as u32),
        socket_mode_value(seq!['0', 'O'] + d) == Ok::<u32, Seq<char>>(base8_value(d) as u32),
{
    assert('0' <= d[0] && d[0] <= '7');
    lemma_parse_octal(d);
    if d[0] == '0' {
        let e = d.drop_first();
        assert(d =~= seq!['0'] + e);
        assert(e.len() > 0) by {
            if e.len() == 0 {
                assert(d =~= seq!['0']);
            }
        }
        lemma_base8_leading_zero(e);
        assert(octal_digits(e)) by {
            assert forall|i: int| 0 <= i < e.len() implies '0' <= #[trigger] e[i] && e[i] <= '7' by {
                assert(e[i] == d[i + 1]);
            }
        }
        lemma_parse_octal(e);
        assert(socket_mode_digits(d) == e);
    } else {
        assert(socket_mode_digits(d) == d);
    }
    let z = seq!['0'] + d;
    assert(z[0] == '0' && z[1] == d[0]);
    assert(z.drop_first() =~= d);
    assert(socket_mode_digits(z) == d);
    let lo = seq!['0', 'o'] + d;
    let hi = seq!['0', 'O'] + d;
    assert(lo[0] == '0' && lo[1] == 'o' && lo.skip(2) =~= d);
    assert(hi[0] == '0' && hi[1] == 'O' && hi.skip(2) =~= d);
    assert(socket_mode_digits(lo) == socket_mode_digits(d));
    assert(socket_mode_digits(hi) == socket_mode_digits(d));
}

} // verus!
