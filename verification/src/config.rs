//! The agent's configuration: device identity, broker connection parameters
//! and retry/backoff bounds, together with the line-oriented config file
//! format it is stored in. Rendering a configuration and parsing the result
//! gives back field-for-field the same configuration.
use vstd::prelude::*;

use crate::duration::duration_parsable;
use crate::duration::duration_str;
use crate::duration::duration_val;
use crate::duration::lemma_duration_round_trip;
use crate::duration::parse_duration;
use crate::duration::render_duration;
use crate::numerals::all_digits;
use crate::numerals::int_parsable;
use crate::numerals::int_str;
use crate::numerals::int_val;
use crate::numerals::is_digit;
use crate::numerals::lemma_dec_str_wf;
use crate::numerals::lemma_int_str_round_trip;
use crate::numerals::parse_i64_in;
use crate::text::lemma_strip_prefix_concat;
use crate::text::lemma_take_line_concat;
use crate::text::no_nl;
use crate::text::str_eq;
use crate::text::strip_prefix;
use crate::text::strip_prefix_exec;
use crate::text::take_line;
use crate::text::take_line_exec;

verus! {

/// Device identity, timezone choice and publish period.
pub struct General {
    pub devid: String,
    pub tz: bool,
    /// Publish period in milliseconds.
    pub periodic_ms: u64,
}

/// Broker connection parameters and the retry/backoff bounds.
pub struct Broker {
    pub host: String,
    pub user: String,
    pub pass: String,
    pub qos: i32,
    pub topic: String,
    /// Backoff delay between reconnect attempts, in milliseconds.
    pub reconnect_ms: u64,
    pub retries: i8,
}

pub struct Config {
    pub general: General,
    pub broker: Broker,
}

/// The mathematical image of a `Config`.
pub ghost struct ConfigModel {
    pub devid: Seq<char>,
    pub tz: bool,
    pub periodic_ms: int,
    pub host: Seq<char>,
    pub user: Seq<char>,
    pub pass: Seq<char>,
    pub qos: int,
    pub topic: Seq<char>,
    pub reconnect_ms: int,
    pub retries: int,
}

impl View for Config {
    type V = ConfigModel;

    open spec fn view(&self) -> ConfigModel {
        ConfigModel {
            devid: self.general.devid@,
            tz: self.general.tz,
            periodic_ms: self.general.periodic_ms as int,
            host: self.broker.host@,
            user: self.broker.user@,
            pass: self.broker.pass@,
            qos: self.broker.qos as int,
            topic: self.broker.topic@,
            reconnect_ms: self.broker.reconnect_ms as int,
            retries: self.broker.retries as int,
        }
    }
}

/// A configuration the file format can carry: single-line string fields and
/// machine-width numeric fields.
pub open spec fn valid_model(m: ConfigModel) -> bool {
    &&& no_nl(m.devid)
    &&& no_nl(m.host)
    &&& no_nl(m.user)
    &&& no_nl(m.pass)
    &&& no_nl(m.topic)
    &&& 0 <= m.periodic_ms <= u64::MAX
    &&& 0 <= m.reconnect_ms <= u64::MAX
    &&& i32::MIN <= m.qos <= i32::MAX
    &&& i8::MIN <= m.retries <= i8::MAX
}

impl Config {
    /// The string fields fit on one line each; the numeric fields always do.
    pub open spec fn valid(&self) -> bool {
        valid_model(self@)
    }
}

pub open spec fn bool_str(b: bool) -> Seq<char> {
    if b {
        "true"@
    } else {
        "false"@
    }
}

/// One `key: value` line of the config file.
pub open spec fn field_line(key: Seq<char>, value: Seq<char>) -> Seq<char> {
    key + value + seq!['\n']
}

/// The last four lines of the config file text.
pub open spec fn render_broker_tail(m: ConfigModel) -> Seq<char> {
    field_line("  qos: "@, int_str(m.qos)) + (field_line("  topic: "@, m.topic) + (field_line(
        "  reconnect: "@,
        duration_str(m.reconnect_ms as nat),
    ) + field_line("  retries: "@, int_str(m.retries))))
}

/// The config file text for a configuration.
pub open spec fn render_model(m: ConfigModel) -> Seq<char> {
    "general:\n"@ + (field_line("  devid: "@, m.devid) + (field_line("  tz: "@, bool_str(m.tz)) + (
    field_line("  periodic: "@, duration_str(m.periodic_ms as nat)) + ("broker:\n"@ + (field_line(
        "  host: "@,
        m.host,
    ) + (field_line("  user: "@, m.user) + (field_line("  pass: "@, m.pass)
        + render_broker_tail(m))))))))
}

/// Strips `key` and takes the rest of that line as the field's value.
pub open spec fn parse_field(s: Seq<char>, key: Seq<char>) -> Option<(Seq<char>, Seq<char>)> {
    match strip_prefix(s, key) {
        Some(r) => take_line(r),
        None => None,
    }
}

/// Reads a configuration back from config file text. `Some` exactly on texts
/// shaped as `render_model` shapes them, with parsable field values.
pub open spec fn parse_model(s: Seq<char>) -> Option<ConfigModel> {
    match strip_prefix(s, "general:\n"@) {
        None => None,
        Some(s1) => match parse_field(s1, "  devid: "@) {
            None => None,
            Some((devid, s2)) => match parse_field(s2, "  tz: "@) {
                None => None,
                Some((tzs, s3)) => if tzs != "true"@ && tzs != "false"@ {
                    None
                } else {
                    match parse_field(s3, "  periodic: "@) {
                        None => None,
                        Some((ps, s4)) => if !duration_parsable(ps) {
                            None
                        } else {
                            match strip_prefix(s4, "broker:\n"@) {
                                None => None,
                                Some(s5) => match parse_field(s5, "  host: "@) {
                                    None => None,
                                    Some((host, s6)) => match parse_field(s6, "  user: "@) {
                                        None => None,
                                        Some((user, s7)) => match parse_field(s7, "  pass: "@) {
                                            None => None,
                                            Some((pass, s8)) => parse_model_broker_tail(
                                                s8,
                                                ConfigModel {
                                                    devid,
                                                    tz: tzs == "true"@,
                                                    periodic_ms: duration_val(ps),
                                                    host,
                                                    user,
                                                    pass,
                                                    qos: 0,
                                                    topic: Seq::empty(),
                                                    reconnect_ms: 0,
                                                    retries: 0,
                                                },
                                            ),
                                        },
                                    },
                                },
                            }
                        },
                    }
                },
            },
        },
    }
}

/// The last four fields of the broker section.
pub open spec fn parse_model_broker_tail(s: Seq<char>, head: ConfigModel) -> Option<ConfigModel> {
    match parse_field(s, "  qos: "@) {
        None => None,
        Some((qs, s9)) => if !(int_parsable(qs) && i32::MIN <= int_val(qs) <= i32::MAX) {
            None
        } else {
            match parse_field(s9, "  topic: "@) {
                None => None,
                Some((topic, s10)) => match parse_field(s10, "  reconnect: "@) {
                    None => None,
                    Some((rs, s11)) => if !duration_parsable(rs) {
                        None
                    } else {
                        match parse_field(s11, "  retries: "@) {
                            None => None,
                            Some((res, s12)) => if !(int_parsable(res) && i8::MIN <= int_val(res)
                                <= i8::MAX && s12.len() == 0) {
                                None
                            } else {
                                Some(
                                    ConfigModel {
                                        qos: int_val(qs),
                                        topic,
                                        reconnect_ms: duration_val(rs),
                                        retries: int_val(res),
                                        ..head
                                    },
                                )
                            },
                        }
                    },
                },
            }
        },
    }
}

proof fn lemma_no_nl_concat(a: Seq<char>, b: Seq<char>)
    requires
        no_nl(a),
        no_nl(b),
    ensures
        no_nl(a + b),
{
    assert forall|i: int| 0 <= i < (a + b).len() implies (a + b)[i] != '\n' by {
        if i < a.len() {
            assert((a + b)[i] == a[i]);
        } else {
            assert((a + b)[i] == b[i - a.len()]);
        }
    }
}

proof fn lemma_digits_no_nl(s: Seq<char>)
    requires
        all_digits(s),
    ensures
        no_nl(s),
{
    assert forall|i: int| 0 <= i < s.len() implies s[i] != '\n' by {
        assert(is_digit(s[i]));
    }
}

proof fn lemma_int_str_no_nl(n: int)
    ensures
        no_nl(int_str(n)),
{
    if n < 0 {
        lemma_dec_str_wf((-n) as nat);
        lemma_digits_no_nl(crate::numerals::dec_str((-n) as nat));
        lemma_no_nl_concat(seq!['-'], crate::numerals::dec_str((-n) as nat));
    } else {
        lemma_dec_str_wf(n as nat);
        lemma_digits_no_nl(crate::numerals::dec_str(n as nat));
    }
}

proof fn lemma_duration_str_no_nl(ms: nat)
    ensures
        no_nl(duration_str(ms)),
{
    if ms % 1000 == 0 {
        lemma_dec_str_wf(ms / 1000);
        lemma_digits_no_nl(crate::numerals::dec_str(ms / 1000));
        lemma_no_nl_concat(crate::numerals::dec_str(ms / 1000), seq!['s']);
    } else {
        lemma_dec_str_wf(ms);
        lemma_digits_no_nl(crate::numerals::dec_str(ms));
        lemma_no_nl_concat(crate::numerals::dec_str(ms), seq!['m', 's']);
    }
}

/// One field line of the rendered file parses back to its value and leaves
/// exactly the following lines.
proof fn lemma_parse_field_concat(key: Seq<char>, value: Seq<char>, rest: Seq<char>)
    requires
        no_nl(value),
    ensures
        parse_field(field_line(key, value) + rest, key) == Some((value, rest)),
{
    let tail = value + seq!['\n'] + rest;
    assert(field_line(key, value) + rest =~= key + tail);
    lemma_strip_prefix_concat(key, tail);
    lemma_take_line_concat(value, rest);
}

/// The rendered broker tail parses back to the tail fields of `m`, keeping
/// the front fields of `head`.
#[verifier::rlimit(100)]
proof fn lemma_broker_tail_round_trip(m: ConfigModel, head: ConfigModel)
    requires
        valid_model(m),
    ensures
        parse_model_broker_tail(render_broker_tail(m), head) == Some(
            ConfigModel {
                qos: m.qos,
                topic: m.topic,
                reconnect_ms: m.reconnect_ms,
                retries: m.retries,
                ..head
            },
        ),
{
    lemma_duration_round_trip(m.reconnect_ms as nat);
    lemma_int_str_round_trip(m.qos);
    lemma_int_str_round_trip(m.retries);
    lemma_duration_str_no_nl(m.reconnect_ms as nat);
    lemma_int_str_no_nl(m.qos);
    lemma_int_str_no_nl(m.retries);

    let r12: Seq<char> = Seq::empty();
    let r11 = field_line("  retries: "@, int_str(m.retries));
    let r10 = field_line("  reconnect: "@, duration_str(m.reconnect_ms as nat)) + r11;
    let r9 = field_line("  topic: "@, m.topic) + r10;
    assert(render_broker_tail(m) == field_line("  qos: "@, int_str(m.qos)) + r9);
    assert(r11 == field_line("  retries: "@, int_str(m.retries)) + r12) by {
        assert(r11 =~= r11 + r12);
    }

    lemma_parse_field_concat("  qos: "@, int_str(m.qos), r9);
    lemma_parse_field_concat("  topic: "@, m.topic, r10);
    lemma_parse_field_concat("  reconnect: "@, duration_str(m.reconnect_ms as nat), r11);
    lemma_parse_field_concat("  retries: "@, int_str(m.retries), r12);
}

/// Writing a valid configuration to the file format and reading it back
/// yields field-for-field the same configuration.
#[verifier::rlimit(100)]
pub proof fn lemma_config_round_trip(m: ConfigModel)
    requires
        valid_model(m),
    ensures
        parse_model(render_model(m)) == Some(m),
{
    reveal_strlit("true");
    reveal_strlit("false");
    lemma_duration_round_trip(m.periodic_ms as nat);

    let bs = bool_str(m.tz);
    assert(no_nl(bs));
    assert("true"@ != "false"@);
    lemma_duration_str_no_nl(m.periodic_ms as nat);

    let r8 = render_broker_tail(m);
    let r7 = field_line("  pass: "@, m.pass) + r8;
    let r6 = field_line("  user: "@, m.user) + r7;
    let r5 = field_line("  host: "@, m.host) + r6;
    let r4 = "broker:\n"@ + r5;
    let r3 = field_line("  periodic: "@, duration_str(m.periodic_ms as nat)) + r4;
    let r2 = field_line("  tz: "@, bs) + r3;
    let r1 = field_line("  devid: "@, m.devid) + r2;
    assert(render_model(m) == "general:\n"@ + r1);

    lemma_strip_prefix_concat("general:\n"@, r1);
    lemma_parse_field_concat("  devid: "@, m.devid, r2);
    lemma_parse_field_concat("  tz: "@, bs, r3);
    lemma_parse_field_concat("  periodic: "@, duration_str(m.periodic_ms as nat), r4);
    lemma_strip_prefix_concat("broker:\n"@, r5);
    lemma_parse_field_concat("  host: "@, m.host, r6);
    lemma_parse_field_concat("  user: "@, m.user, r7);
    lemma_parse_field_concat("  pass: "@, m.pass, r8);

    let head = ConfigModel {
        devid: m.devid,
        tz: (bs == "true"@),
        periodic_ms: duration_val(duration_str(m.periodic_ms as nat)),
        host: m.host,
        user: m.user,
        pass: m.pass,
        qos: 0,
        topic: Seq::empty(),
        reconnect_ms: 0,
        retries: 0,
    };
    lemma_broker_tail_round_trip(m, head);
    if m.tz {
        assert(bs == "true"@);
    } else {
        assert(bs == "false"@);
    }
    assert(parse_model(render_model(m)) == Some(m));
}

fn parse_field_exec(s: &str, key: &str) -> (r: Option<(String, String)>)
    ensures
        (r is Some) <==> parse_field(s@, key@) is Some,
        (match r {
            Some(q) => parse_field(s@, key@) == Some((q.0@, q.1@)),
            None => true,
        }),
{
    match strip_prefix_exec(s, key) {
        None => None,
        Some(rest) => take_line_exec(rest.as_str()),
    }
}

/// Appends one `key: value` line to `out`.
fn append_field_line(out: &mut String, key: &str, value: &str)
    ensures
        final(out)@ == old(out)@ + field_line(key@, value@),
{
    out.append(key);
    out.append(value);
    out.append("\n");
    proof {
        reveal_strlit("\n");
        assert("\n"@ =~= seq!['\n']);
        assert(out@ =~= old(out)@ + field_line(key@, value@));
    }
}

impl Config {
    /// Writes the configuration in the config file format.
    #[verifier::rlimit(100)]
    pub fn render(&self) -> (r: String)
        ensures
            r@ == render_model(self@),
    {
        let mut out = String::new();
        out.append("general:\n");
        append_field_line(&mut out, "  devid: ", self.general.devid.as_str());
        if self.general.tz {
            append_field_line(&mut out, "  tz: ", "true");
        } else {
            append_field_line(&mut out, "  tz: ", "false");
        }
        let pd = render_duration(self.general.periodic_ms);
        append_field_line(&mut out, "  periodic: ", pd.as_str());
        out.append("broker:\n");
        append_field_line(&mut out, "  host: ", self.broker.host.as_str());
        append_field_line(&mut out, "  user: ", self.broker.user.as_str());
        append_field_line(&mut out, "  pass: ", self.broker.pass.as_str());
        let qs = crate::numerals::i64_to_string(self.broker.qos as i64);
        append_field_line(&mut out, "  qos: ", qs.as_str());
        append_field_line(&mut out, "  topic: ", self.broker.topic.as_str());
        let rd = render_duration(self.broker.reconnect_ms);
        append_field_line(&mut out, "  reconnect: ", rd.as_str());
        let rt = crate::numerals::i64_to_string(self.broker.retries as i64);
        append_field_line(&mut out, "  retries: ", rt.as_str());
        proof {
            assert(out@ =~= render_model(self@));
        }
        out
    }

    /// Reads a configuration from config file text; `Some` exactly where
    /// `parse_model` accepts the text.
    pub fn parse(s: &str) -> (r: Option<Config>)
        ensures
            (r is Some) <==> parse_model(s@) is Some,
            (match r {
                Some(c) => parse_model(s@) == Some(c@),
                None => true,
            }),
    {
        let s1 = match strip_prefix_exec(s, "general:\n") {
            None => {
                return None;
            },
            Some(x) => x,
        };
        let (devid, s2) = match parse_field_exec(s1.as_str(), "  devid: ") {
            None => {
                return None;
            },
            Some(x) => x,
        };
        let (tzs, s3) = match parse_field_exec(s2.as_str(), "  tz: ") {
            None => {
                return None;
            },
            Some(x) => x,
        };
        let is_true = str_eq(tzs.as_str(), "true");
        let is_false = str_eq(tzs.as_str(), "false");
        if !is_true && !is_false {
            return None;
        }
        let (ps, s4) = match parse_field_exec(s3.as_str(), "  periodic: ") {
            None => {
                return None;
            },
            Some(x) => x,
        };
        let periodic_ms = match parse_duration(ps.as_str()) {
            None => {
                return None;
            },
            Some(x) => x,
        };
        proof {
            crate::duration::lemma_duration_val_nonneg(ps@);
        }
        let s5 = match strip_prefix_exec(s4.as_str(), "broker:\n") {
            None => {
                return None;
            },
            Some(x) => x,
        };
        let (host, s6) = match parse_field_exec(s5.as_str(), "  host: ") {
            None => {
                return None;
            },
            Some(x) => x,
        };
        let (user, s7) = match parse_field_exec(s6.as_str(), "  user: ") {
            None => {
                return None;
            },
            Some(x) => x,
        };
        let (pass, s8) = match parse_field_exec(s7.as_str(), "  pass: ") {
            None => {
                return None;
            },
            Some(x) => x,
        };
        let (qs, s9) = match parse_field_exec(s8.as_str(), "  qos: ") {
            None => {
                return None;
            },
            Some(x) => x,
        };
        let qos64 = match parse_i64_in(qs.as_str(), -2147483648i64, 2147483647i64) {
            None => {
                return None;
            },
            Some(x) => x,
        };
        let (topic, s10) = match parse_field_exec(s9.as_str(), "  topic: ") {
            None => {
                return None;
            },
            Some(x) => x,
        };
        let (rs, s11) = match parse_field_exec(s10.as_str(), "  reconnect: ") {
            None => {
                return None;
            },
            Some(x) => x,
        };
        let reconnect_ms = match parse_duration(rs.as_str()) {
            None => {
                return None;
            },
            Some(x) => x,
        };
        proof {
            crate::duration::lemma_duration_val_nonneg(rs@);
        }
        let (res, s12) = match parse_field_exec(s11.as_str(), "  retries: ") {
            None => {
                return None;
            },
            Some(x) => x,
        };
        let retries64 = match parse_i64_in(res.as_str(), -128i64, 127i64) {
            None => {
                return None;
            },
            Some(x) => x,
        };
        if s12.as_str().unicode_len() != 0 {
            return None;
        }
        let c = Config {
            general: General { devid, tz: is_true, periodic_ms },
            broker: Broker {
                host,
                user,
                pass,
                qos: qos64 as i32,
                topic,
                reconnect_ms,
                retries: retries64 as i8,
            },
        };
        Some(c)
    }
}

} // verus!
