//! The message model: every record the agent publishes or reads, each
//! with its wire codec. A record encodes to the canonical member order
//! below; decoding accepts any member order, skips unknown members, and
//! fails on a missing or ill-typed one.
use vstd::prelude::*;

use crate::codec::{
    arr_to_strvec, get_arr, get_bool, get_dur, get_i32, get_str, get_u32, get_u64, get_val,
    gj_arr, gj_bool, gj_dur, gj_i32, gj_str, gj_strvec, gj_u32, gj_u64, glookup, jdur, jnum_i64,
    jnum_u64, jstr, lemma_glookup_skip, lemma_jview_arr_push, lemma_strvec_round, put, strs_view,
    strvec_gj, strvec_to_arr,
};
use crate::dur::Dur;
use crate::json::{jview, jview_arr, jview_obj, GJson, Json};
use crate::text::{dec_digits, int_digits};

verus! {

broadcast use vstd::seq::group_seq_axioms;

pub proof fn lemma_wf_num_u64(n: u64)
    ensures
        crate::json::wf_num(dec_digits(n as nat)),
{
    crate::text::lemma_dec_digits_shape(n as nat);
    let s = dec_digits(n as nat);
    assert forall|i: int| 0 <= i < s.len() implies crate::json::num_char(#[trigger] s[i]) by {
        assert(crate::text::is_digit(s[i]));
    }
}

pub proof fn lemma_wf_num_i64(v: i64)
    ensures
        crate::json::wf_num(int_digits(v as int)),
{
    let s = int_digits(v as int);
    if v < 0 {
        crate::text::lemma_dec_digits_shape((-(v as int)) as nat);
        assert(s[0] == '-');
        assert forall|i: int| 0 <= i < s.len() implies crate::json::num_char(#[trigger] s[i]) by {
            if i > 0 {
                assert(s[i] == dec_digits((-(v as int)) as nat)[i - 1]);
            }
        }
    } else {
        lemma_wf_num_u64(v as u64);
    }
}

/// The hello snapshot: who this agent is.
#[derive(Debug, Clone)]
pub struct CheckInNats {
    pub agent_id: String,
    pub version: String,
}

impl Default for CheckInNats {
    /// The empty record.
    fn default() -> (r: CheckInNats)
        ensures
            r.agent_id@.len() == 0,
            r.version@.len() == 0,
    {
        proof {
            reveal_strlit("");
        }
        CheckInNats {
            agent_id: crate::text::string_of(""),
            version: crate::text::string_of(""),
        }
    }
}

/// How a parsed object's members determine one `CheckInNats`.
pub open spec fn check_in_rel(fields: Seq<(Seq<char>, GJson)>, x: CheckInNats) -> bool {
    &&& gj_str(glookup(fields, "agent_id"@)) == Some(x.agent_id@)
    &&& gj_str(glookup(fields, "version"@)) == Some(x.version@)
}

/// Whether an object has every member a `CheckInNats` needs, well typed.
pub open spec fn check_in_ok(fields: Seq<(Seq<char>, GJson)>) -> bool {
    &&& gj_str(glookup(fields, "agent_id"@)) is Some
    &&& gj_str(glookup(fields, "version"@)) is Some
}

/// The canonical members of one `CheckInNats`.
pub open spec fn check_in_fields(x: CheckInNats) -> Seq<(Seq<char>, GJson)> {
    seq![
        ("agent_id"@, GJson::Str(x.agent_id@)),
        ("version"@, GJson::Str(x.version@)),
    ]
}

pub open spec fn check_in_gj(x: CheckInNats) -> GJson {
    GJson::Obj(check_in_fields(x))
}

pub open spec fn check_in_objrel(g: GJson, x: CheckInNats) -> bool {
    g matches GJson::Obj(fields) && check_in_rel(fields, x)
}

pub open spec fn check_in_objok(g: GJson) -> bool {
    g matches GJson::Obj(fields) && check_in_ok(fields)
}

pub open spec fn check_in_vec_rel(elems: Seq<GJson>, v: Vec<CheckInNats>) -> bool {
    elems.len() == v@.len() && (forall|i: int|
        0 <= i < elems.len() ==> check_in_objrel(#[trigger] elems[i], v@[i]))
}

pub open spec fn check_in_vec_ok(elems: Seq<GJson>) -> bool {
    forall|i: int| 0 <= i < elems.len() ==> check_in_objok(#[trigger] elems[i])
}

pub open spec fn check_in_vec_gj(v: Vec<CheckInNats>) -> Seq<GJson> {
    Seq::new(v@.len(), |i: int| check_in_gj(v@[i]))
}

/// Write a vector of `CheckInNats` records as an array value.
pub fn check_in_arr_of(v: &Vec<CheckInNats>) -> (r: Vec<Json>)
    ensures
        jview_arr(r, 0) =~= check_in_vec_gj(*v),
{
    let mut out: Vec<Json> = Vec::new();
    let mut i: usize = 0;
    while i < v.len()
        invariant
            0 <= i <= v@.len(),
            jview_arr(out, 0) =~= check_in_vec_gj(*v).take(i as int),
        decreases v@.len() - i,
    {
        let ghost o0 = out;
        let item = Json::Obj(v[i].to_obj());
        let ghost ig = item;
        out.push(item);
        proof {
            lemma_jview_arr_push(o0, out, ig);
            assert(jview_arr(out, 0) =~= check_in_vec_gj(*v).take(i + 1));
        }
        i = i + 1;
    }
    proof {
        assert(check_in_vec_gj(*v).take(v@.len() as int) =~= check_in_vec_gj(*v));
    }
    out
}

/// Read an array of `CheckInNats` records.
pub fn check_in_vec_from(arr: &Vec<Json>) -> (r: Option<Vec<CheckInNats>>)
    ensures
        r is Some <==> check_in_vec_ok(jview_arr(*arr, 0)),
        match r {
            Some(v) => check_in_vec_rel(jview_arr(*arr, 0), v),
            None => true,
        },
{
    proof {
        crate::json::lemma_jview_arr(*arr, 0);
    }
    let mut out: Vec<CheckInNats> = Vec::new();
    let mut i: usize = 0;
    while i < arr.len()
        invariant
            0 <= i <= arr@.len(),
            jview_arr(*arr, 0).len() == arr@.len(),
            forall|k: int|
                0 <= k < arr@.len() ==> #[trigger] jview_arr(*arr, 0)[k] == jview(arr@[k]),
            out@.len() == i,
            forall|k: int|
                0 <= k < i ==> check_in_objok(#[trigger] jview_arr(*arr, 0)[k]) && check_in_objrel(
                    jview_arr(*arr, 0)[k],
                    out@[k],
                ),
        decreases arr@.len() - i,
    {
        match &arr[i] {
            Json::Obj(o) => match CheckInNats::from_obj(o) {
                Some(t) => { out.push(t); },
                None => {
                    proof {
                        assert(!check_in_objok(jview_arr(*arr, 0)[i as int]));
                    }
                    return None;
                },
            },
            _ => {
                proof {
                    assert(!check_in_objok(jview_arr(*arr, 0)[i as int]));
                }
                return None;
            },
        }
        i = i + 1;
    }
    Some(out)
}

impl CheckInNats {
    /// Read one record from a parsed object.
    pub fn from_obj(obj: &Vec<(String, Json)>) -> (r: Option<CheckInNats>)
        ensures
            ({
                let fields = jview_obj(*obj, 0);
                &&& (r is Some <==> check_in_ok(fields))
                &&& (match r { Some(x) => check_in_rel(fields, x), None => true })
            }),
    {
    let agent_id = match get_str(obj, "agent_id") { Some(v) => v, None => { return None; } };
    let version = match get_str(obj, "version") { Some(v) => v, None => { return None; } };
    Some(CheckInNats { agent_id, version })
    }

    /// Write this record's members in canonical order.
    pub fn to_obj(&self) -> (r: Vec<(String, Json)>)
        ensures
            jview_obj(r, 0) =~= check_in_fields(*self),
    {
        let mut obj: Vec<(String, Json)> = Vec::new();
        put(&mut obj, "agent_id", jstr(self.agent_id.as_str()));
        put(&mut obj, "version", jstr(self.version.as_str()));
        proof {
            assert(jview_obj(obj, 0) =~= check_in_fields(*self));
        }
        obj
    }

    /// This record as a payload text.
    pub fn encode(&self) -> (r: String)
        ensures
            r@ == crate::json::spec_print(check_in_gj(*self)),
    {
        let obj = self.to_obj();
        let ghost og = obj;
        let j = Json::Obj(obj);
        proof {
            assert(jview_obj(og, 0) =~= check_in_fields(*self));
            assert(j@ == check_in_gj(*self));
        }
        crate::json::json_to_string(&j)
    }

    /// Read one record from a payload text.
    pub fn decode(s: &str) -> (r: Option<CheckInNats>)
        ensures
            match crate::json::spec_parse_json(s@) {
                Some(g) => match g {
                    GJson::Obj(fields) => (r is Some <==> check_in_ok(fields)) && (
                    match r { Some(x) => check_in_rel(fields, x), None => true }),
                    _ => r is None,
                },
                None => r is None,
            },
    {
        match crate::json::parse_json_str(s) {
            Some(Json::Obj(obj)) => CheckInNats::from_obj(&obj),
            Some(_) => None,
            None => None,
        }
    }
}

/// Writing one `CheckInNats` and reading the text back yields the same
/// record, member for member.
#[verifier::rlimit(100)]
#[verifier::spinoff_prover]
pub proof fn lemma_check_in_round_trip(x: CheckInNats)
    ensures
        crate::json::wf(check_in_gj(x)),
        crate::json::spec_parse_json(crate::json::spec_print(check_in_gj(x))) == Some(check_in_gj(x)),
        check_in_ok(check_in_fields(x)),
        check_in_rel(check_in_fields(x), x),
{
    lemma_check_in_canonical(x);
    crate::json::lemma_json_round_trip(check_in_gj(x));
}

#[verifier::rlimit(100)]
#[verifier::spinoff_prover]
proof fn lemma_check_in_canonical(x: CheckInNats)
    ensures
        crate::json::wf(check_in_gj(x)),
        check_in_ok(check_in_fields(x)),
        check_in_rel(check_in_fields(x), x),
        check_in_objok(check_in_gj(x)),
        check_in_objrel(check_in_gj(x), x),
{
    let fields = check_in_fields(x);
    reveal_strlit("agent_id");
    reveal_strlit("version");
    assert forall|i: int| 0 <= i < 0 implies (#[trigger] fields[i]).0 != "agent_id"@ by {
    }
    lemma_glookup_skip(fields, "agent_id"@, 0);
    assert(fields.skip(0)[0] == fields[0]);
    assert(glookup(fields, "agent_id"@) == Some(fields[0].1));
    assert("agent_id"@.len() == 8);
    assert("version"@.len() == 7);
    assert("agent_id"@ != "version"@);
    assert forall|i: int| 0 <= i < 1 implies (#[trigger] fields[i]).0 != "version"@ by {
        assert(fields[0].0 == "agent_id"@);
    }
    lemma_glookup_skip(fields, "version"@, 1);
    assert(fields.skip(1)[0] == fields[1]);
    assert(glookup(fields, "version"@) == Some(fields[1].1));
    assert forall|i: int| 0 <= i < fields.len() implies crate::json::wf(#[trigger] fields[i].1) by {
        assert(crate::json::wf(fields[0].1));
        assert(crate::json::wf(fields[1].1));
    }
}

/// The host inventory snapshot.
#[derive(Debug, Clone)]
pub struct AgentInfoNats {
    pub agent_id: String,
    pub username: String,
    pub hostname: String,
    pub os: String,
    pub plat: String,
    pub total_ram: u64,
    pub boot_time: u64,
    pub reboot_needed: bool,
    pub arch: String,
}

impl Default for AgentInfoNats {
    /// The empty record.
    fn default() -> (r: AgentInfoNats)
        ensures
            r.agent_id@.len() == 0,
            r.username@.len() == 0,
            r.hostname@.len() == 0,
            r.os@.len() == 0,
            r.plat@.len() == 0,
            r.total_ram == 0,
            r.boot_time == 0,
            r.reboot_needed == false,
            r.arch@.len() == 0,
    {
        proof {
            reveal_strlit("");
        }
        AgentInfoNats {
            agent_id: crate::text::string_of(""),
            username: crate::text::string_of(""),
            hostname: crate::text::string_of(""),
            os: crate::text::string_of(""),
            plat: crate::text::string_of(""),
            total_ram: 0,
            boot_time: 0,
            reboot_needed: false,
            arch: crate::text::string_of(""),
        }
    }
}

/// How a parsed object's members determine one `AgentInfoNats`.
pub open spec fn agent_info_rel(fields: Seq<(Seq<char>, GJson)>, x: AgentInfoNats) -> bool {
    &&& gj_str(glookup(fields, "agent_id"@)) == Some(x.agent_id@)
    &&& gj_str(glookup(fields, "logged_in_username"@)) == Some(x.username@)
    &&& gj_str(glookup(fields, "hostname"@)) == Some(x.hostname@)
    &&& gj_str(glookup(fields, "operating_system"@)) == Some(x.os@)
    &&& gj_str(glookup(fields, "plat"@)) == Some(x.plat@)
    &&& gj_u64(glookup(fields, "total_ram"@)) == Some(x.total_ram)
    &&& gj_u64(glookup(fields, "boot_time"@)) == Some(x.boot_time)
    &&& gj_bool(glookup(fields, "needs_reboot"@)) == Some(x.reboot_needed)
    &&& gj_str(glookup(fields, "arch"@)) == Some(x.arch@)
}

/// Whether an object has every member a `AgentInfoNats` needs, well typed.
pub open spec fn agent_info_ok(fields: Seq<(Seq<char>, GJson)>) -> bool {
    &&& gj_str(glookup(fields, "agent_id"@)) is Some
    &&& gj_str(glookup(fields, "logged_in_username"@)) is Some
    &&& gj_str(glookup(fields, "hostname"@)) is Some
    &&& gj_str(glookup(fields, "operating_system"@)) is Some
    &&& gj_str(glookup(fields, "plat"@)) is Some
    &&& gj_u64(glookup(fields, "total_ram"@)) is Some
    &&& gj_u64(glookup(fields, "boot_time"@)) is Some
    &&& gj_bool(glookup(fields, "needs_reboot"@)) is Some
    &&& gj_str(glookup(fields, "arch"@)) is Some
}

/// The canonical members of one `AgentInfoNats`.
pub open spec fn agent_info_fields(x: AgentInfoNats) -> Seq<(Seq<char>, GJson)> {
    seq![
        ("agent_id"@, GJson::Str(x.agent_id@)),
        ("logged_in_username"@, GJson::Str(x.username@)),
        ("hostname"@, GJson::Str(x.hostname@)),
        ("operating_system"@, GJson::Str(x.os@)),
        ("plat"@, GJson::Str(x.plat@)),
        ("total_ram"@, GJson::Num(dec_digits(x.total_ram as nat))),
        ("boot_time"@, GJson::Num(dec_digits(x.boot_time as nat))),
        ("needs_reboot"@, GJson::Bool(x.reboot_needed)),
        ("arch"@, GJson::Str(x.arch@)),
    ]
}

pub open spec fn agent_info_gj(x: AgentInfoNats) -> GJson {
    GJson::Obj(agent_info_fields(x))
}

pub open spec fn agent_info_objrel(g: GJson, x: AgentInfoNats) -> bool {
    g matches GJson::Obj(fields) && agent_info_rel(fields, x)
}

pub open spec fn agent_info_objok(g: GJson) -> bool {
    g matches GJson::Obj(fields) && agent_info_ok(fields)
}

pub open spec fn agent_info_vec_rel(elems: Seq<GJson>, v: Vec<AgentInfoNats>) -> bool {
    elems.len() == v@.len() && (forall|i: int|
        0 <= i < elems.len() ==> agent_info_objrel(#[trigger] elems[i], v@[i]))
}

pub open spec fn agent_info_vec_ok(elems: Seq<GJson>) -> bool {
    forall|i: int| 0 <= i < elems.len() ==> agent_info_objok(#[trigger] elems[i])
}

pub open spec fn agent_info_vec_gj(v: Vec<AgentInfoNats>) -> Seq<GJson> {
    Seq::new(v@.len(), |i: int| agent_info_gj(v@[i]))
}

/// Write a vector of `AgentInfoNats` records as an array value.
pub fn agent_info_arr_of(v: &Vec<AgentInfoNats>) -> (r: Vec<Json>)
    ensures
        jview_arr(r, 0) =~= agent_info_vec_gj(*v),
{
    let mut out: Vec<Json> = Vec::new();
    let mut i: usize = 0;
    while i < v.len()
        invariant
            0 <= i <= v@.len(),
            jview_arr(out, 0) =~= agent_info_vec_gj(*v).take(i as int),
        decreases v@.len() - i,
    {
        let ghost o0 = out;
        let item = Json::Obj(v[i].to_obj());
        let ghost ig = item;
        out.push(item);
        proof {
            lemma_jview_arr_push(o0, out, ig);
            assert(jview_arr(out, 0) =~= agent_info_vec_gj(*v).take(i + 1));
        }
        i = i + 1;
    }
    proof {
        assert(agent_info_vec_gj(*v).take(v@.len() as int) =~= agent_info_vec_gj(*v));
    }
    out
}

/// Read an array of `AgentInfoNats` records.
pub fn agent_info_vec_from(arr: &Vec<Json>) -> (r: Option<Vec<AgentInfoNats>>)
    ensures
        r is Some <==> agent_info_vec_ok(jview_arr(*arr, 0)),
        match r {
            Some(v) => agent_info_vec_rel(jview_arr(*arr, 0), v),
            None => true,
        },
{
    proof {
        crate::json::lemma_jview_arr(*arr, 0);
    }
    let mut out: Vec<AgentInfoNats> = Vec::new();
    let mut i: usize = 0;
    while i < arr.len()
        invariant
            0 <= i <= arr@.len(),
            jview_arr(*arr, 0).len() == arr@.len(),
            forall|k: int|
                0 <= k < arr@.len() ==> #[trigger] jview_arr(*arr, 0)[k] == jview(arr@[k]),
            out@.len() == i,
            forall|k: int|
                0 <= k < i ==> agent_info_objok(#[trigger] jview_arr(*arr, 0)[k]) && agent_info_objrel(
                    jview_arr(*arr, 0)[k],
                    out@[k],
                ),
        decreases arr@.len() - i,
    {
        match &arr[i] {
            Json::Obj(o) => match AgentInfoNats::from_obj(o) {
                Some(t) => { out.push(t); },
                None => {
                    proof {
                        assert(!agent_info_objok(jview_arr(*arr, 0)[i as int]));
                    }
                    return None;
                },
            },
            _ => {
                proof {
                    assert(!agent_info_objok(jview_arr(*arr, 0)[i as int]));
                }
                return None;
            },
        }
        i = i + 1;
    }
    Some(out)
}

impl AgentInfoNats {
    /// Read one record from a parsed object.
    pub fn from_obj(obj: &Vec<(String, Json)>) -> (r: Option<AgentInfoNats>)
        ensures
            ({
                let fields = jview_obj(*obj, 0);
                &&& (r is Some <==> agent_info_ok(fields))
                &&& (match r { Some(x) => agent_info_rel(fields, x), None => true })
            }),
    {
    let agent_id = match get_str(obj, "agent_id") { Some(v) => v, None => { return None; } };
    let username = match get_str(obj, "logged_in_username") { Some(v) => v, None => { return None; } };
    let hostname = match get_str(obj, "hostname") { Some(v) => v, None => { return None; } };
    let os = match get_str(obj, "operating_system") { Some(v) => v, None => { return None; } };
    let plat = match get_str(obj, "plat") { Some(v) => v, None => { return None; } };
    let total_ram = match get_u64(obj, "total_ram") { Some(v) => v, None => { return None; } };
    let boot_time = match get_u64(obj, "boot_time") { Some(v) => v, None => { return None; } };
    let reboot_needed = match get_bool(obj, "needs_reboot") { Some(v) => v, None => { return None; } };
    let arch = match get_str(obj, "arch") { Some(v) => v, None => { return None; } };
    Some(AgentInfoNats { agent_id, username, hostname, os, plat, total_ram, boot_time, reboot_needed, arch })
    }

    /// Write this record's members in canonical order.
    pub fn to_obj(&self) -> (r: Vec<(String, Json)>)
        ensures
            jview_obj(r, 0) =~= agent_info_fields(*self),
    {
        let mut obj: Vec<(String, Json)> = Vec::new();
        put(&mut obj, "agent_id", jstr(self.agent_id.as_str()));
        put(&mut obj, "logged_in_username", jstr(self.username.as_str()));
        put(&mut obj, "hostname", jstr(self.hostname.as_str()));
        put(&mut obj, "operating_system", jstr(self.os.as_str()));
        put(&mut obj, "plat", jstr(self.plat.as_str()));
        put(&mut obj, "total_ram", jnum_u64(self.total_ram));
        put(&mut obj, "boot_time", jnum_u64(self.boot_time));
        put(&mut obj, "needs_reboot", Json::Bool(self.reboot_needed));
        put(&mut obj, "arch", jstr(self.arch.as_str()));
        proof {
            assert(jview_obj(obj, 0) =~= agent_info_fields(*self));
        }
        obj
    }

    /// This record as a payload text.
    pub fn encode(&self) -> (r: String)
        ensures
            r@ == crate::json::spec_print(agent_info_gj(*self)),
    {
        let obj = self.to_obj();
        let ghost og = obj;
        let j = Json::Obj(obj);
        proof {
            assert(jview_obj(og, 0) =~= agent_info_fields(*self));
            assert(j@ == agent_info_gj(*self));
        }
        crate::json::json_to_string(&j)
    }

    /// Read one record from a payload text.
    pub fn decode(s: &str) -> (r: Option<AgentInfoNats>)
        ensures
            match crate::json::spec_parse_json(s@) {
                Some(g) => match g {
                    GJson::Obj(fields) => (r is Some <==> agent_info_ok(fields)) && (
                    match r { Some(x) => agent_info_rel(fields, x), None => true }),
                    _ => r is None,
                },
                None => r is None,
            },
    {
        match crate::json::parse_json_str(s) {
            Some(Json::Obj(obj)) => AgentInfoNats::from_obj(&obj),
            Some(_) => None,
            None => None,
        }
    }
}

/// Writing one `AgentInfoNats` and reading the text back yields the same
/// record, member for member.
#[verifier::rlimit(100)]
#[verifier::spinoff_prover]
pub proof fn lemma_agent_info_round_trip(x: AgentInfoNats)
    ensures
        crate::json::wf(agent_info_gj(x)),
        crate::json::spec_parse_json(crate::json::spec_print(agent_info_gj(x))) == Some(agent_info_gj(x)),
        agent_info_ok(agent_info_fields(x)),
        agent_info_rel(agent_info_fields(x), x),
{
    lemma_agent_info_canonical(x);
    crate::json::lemma_json_round_trip(agent_info_gj(x));
}

#[verifier::rlimit(100)]
#[verifier::spinoff_prover]
proof fn lemma_agent_info_canonical(x: AgentInfoNats)
    ensures
        crate::json::wf(agent_info_gj(x)),
        agent_info_ok(agent_info_fields(x)),
        agent_info_rel(agent_info_fields(x), x),
        agent_info_objok(agent_info_gj(x)),
        agent_info_objrel(agent_info_gj(x), x),
{
    let fields = agent_info_fields(x);
    reveal_strlit("agent_id");
    reveal_strlit("logged_in_username");
    reveal_strlit("hostname");
    reveal_strlit("operating_system");
    reveal_strlit("plat");
    reveal_strlit("total_ram");
    reveal_strlit("boot_time");
    reveal_strlit("needs_reboot");
    reveal_strlit("arch");
    lemma_wf_num_u64(x.total_ram);
    crate::text::lemma_u64_digits_round_trip(x.total_ram);
    lemma_wf_num_u64(x.boot_time);
    crate::text::lemma_u64_digits_round_trip(x.boot_time);
    assert forall|i: int| 0 <= i < 0 implies (#[trigger] fields[i]).0 != "agent_id"@ by {
    }
    lemma_glookup_skip(fields, "agent_id"@, 0);
    assert(fields.skip(0)[0] == fields[0]);
    assert(glookup(fields, "agent_id"@) == Some(fields[0].1));
    assert("agent_id"@.len() == 8);
    assert("logged_in_username"@.len() == 18);
    assert("agent_id"@ != "logged_in_username"@);
    assert forall|i: int| 0 <= i < 1 implies (#[trigger] fields[i]).0 != "logged_in_username"@ by {
        assert(fields[0].0 == "agent_id"@);
    }
    lemma_glookup_skip(fields, "logged_in_username"@, 1);
    assert(fields.skip(1)[0] == fields[1]);
    assert(glookup(fields, "logged_in_username"@) == Some(fields[1].1));
    assert("agent_id"@[0] == 'a');
    assert("hostname"@[0] == 'h');
    assert("agent_id"@ != "hostname"@);
    assert("logged_in_username"@.len() == 18);
    assert("hostname"@.len() == 8);
    assert("logged_in_username"@ != "hostname"@);
    assert forall|i: int| 0 <= i < 2 implies (#[trigger] fields[i]).0 != "hostname"@ by {
        assert(fields[0].0 == "agent_id"@);
        assert(fields[1].0 == "logged_in_username"@);
    }
    lemma_glookup_skip(fields, "hostname"@, 2);
    assert(fields.skip(2)[0] == fields[2]);
    assert(glookup(fields, "hostname"@) == Some(fields[2].1));
    assert("agent_id"@.len() == 8);
    assert("operating_system"@.len() == 16);
    assert("agent_id"@ != "operating_system"@);
    assert("logged_in_username"@.len() == 18);
    assert("operating_system"@.len() == 16);
    assert("logged_in_username"@ != "operating_system"@);
    assert("hostname"@.len() == 8);
    assert("operating_system"@.len() == 16);
    assert("hostname"@ != "operating_system"@);
    assert forall|i: int| 0 <= i < 3 implies (#[trigger] fields[i]).0 != "operating_system"@ by {
        assert(fields[0].0 == "agent_id"@);
        assert(fields[1].0 == "logged_in_username"@);
        assert(fields[2].0 == "hostname"@);
    }
    lemma_glookup_skip(fields, "operating_system"@, 3);
    assert(fields.skip(3)[0] == fields[3]);
    assert(glookup(fields, "operating_system"@) == Some(fields[3].1));
    assert("agent_id"@.len() == 8);
    assert("plat"@.len() == 4);
    assert("agent_id"@ != "plat"@);
    assert("logged_in_username"@.len() == 18);
    assert("plat"@.len() == 4);
    assert("logged_in_username"@ != "plat"@);
    assert("hostname"@.len() == 8);
    assert("plat"@.len() == 4);
    assert("hostname"@ != "plat"@);
    assert("operating_system"@.len() == 16);
    assert("plat"@.len() == 4);
    assert("operating_system"@ != "plat"@);
    assert forall|i: int| 0 <= i < 4 implies (#[trigger] fields[i]).0 != "plat"@ by {
        assert(fields[0].0 == "agent_id"@);
        assert(fields[1].0 == "logged_in_username"@);
        assert(fields[2].0 == "hostname"@);
        assert(fields[3].0 == "operating_system"@);
    }
    lemma_glookup_skip(fields, "plat"@, 4);
    assert(fields.skip(4)[0] == fields[4]);
    assert(glookup(fields, "plat"@) == Some(fields[4].1));
    assert("agent_id"@.len() == 8);
    assert("total_ram"@.len() == 9);
    assert("agent_id"@ != "total_ram"@);
    assert("logged_in_username"@.len() == 18);
    assert("total_ram"@.len() == 9);
    assert("logged_in_username"@ != "total_ram"@);
    assert("hostname"@.len() == 8);
    assert("total_ram"@.len() == 9);
    assert("hostname"@ != "total_ram"@);
    assert("operating_system"@.len() == 16);
    assert("total_ram"@.len() == 9);
    assert("operating_system"@ != "total_ram"@);
    assert("plat"@.len() == 4);
    assert("total_ram"@.len() == 9);
    assert("plat"@ != "total_ram"@);
    assert forall|i: int| 0 <= i < 5 implies (#[trigger] fields[i]).0 != "total_ram"@ by {
        assert(fields[0].0 == "agent_id"@);
        assert(fields[1].0 == "logged_in_username"@);
        assert(fields[2].0 == "hostname"@);
        assert(fields[3].0 == "operating_system"@);
        assert(fields[4].0 == "plat"@);
    }
    lemma_glookup_skip(fields, "total_ram"@, 5);
    assert(fields.skip(5)[0] == fields[5]);
    assert(glookup(fields, "total_ram"@) == Some(fields[5].1));
    assert("agent_id"@.len() == 8);
    assert("boot_time"@.len() == 9);
    assert("agent_id"@ != "boot_time"@);
    assert("logged_in_username"@.len() == 18);
    assert("boot_time"@.len() == 9);
    assert("logged_in_username"@ != "boot_time"@);
    assert("hostname"@.len() == 8);
    assert("boot_time"@.len() == 9);
    assert("hostname"@ != "boot_time"@);
    assert("operating_system"@.len() == 16);
    assert("boot_time"@.len() == 9);
    assert("operating_system"@ != "boot_time"@);
    assert("plat"@.len() == 4);
    assert("boot_time"@.len() == 9);
    assert("plat"@ != "boot_time"@);
    assert("total_ram"@[0] == 't');
    assert("boot_time"@[0] == 'b');
    assert("total_ram"@ != "boot_time"@);
    assert forall|i: int| 0 <= i < 6 implies (#[trigger] fields[i]).0 != "boot_time"@ by {
        assert(fields[0].0 == "agent_id"@);
        assert(fields[1].0 == "logged_in_username"@);
        assert(fields[2].0 == "hostname"@);
        assert(fields[3].0 == "operating_system"@);
        assert(fields[4].0 == "plat"@);
        assert(fields[5].0 == "total_ram"@);
    }
    lemma_glookup_skip(fields, "boot_time"@, 6);
    assert(fields.skip(6)[0] == fields[6]);
    assert(glookup(fields, "boot_time"@) == Some(fields[6].1));
    assert("agent_id"@.len() == 8);
    assert("needs_reboot"@.len() == 12);
    assert("agent_id"@ != "needs_reboot"@);
    assert("logged_in_username"@.len() == 18);
    assert("needs_reboot"@.len() == 12);
    assert("logged_in_username"@ != "needs_reboot"@);
    assert("hostname"@.len() == 8);
    assert("needs_reboot"@.len() == 12);
    assert("hostname"@ != "needs_reboot"@);
    assert("operating_system"@.len() == 16);
    assert("needs_reboot"@.len() == 12);
    assert("operating_system"@ != "needs_reboot"@);
    assert("plat"@.len() == 4);
    assert("needs_reboot"@.len() == 12);
    assert("plat"@ != "needs_reboot"@);
    assert("total_ram"@.len() == 9);
    assert("needs_reboot"@.len() == 12);
    assert("total_ram"@ != "needs_reboot"@);
    assert("boot_time"@.len() == 9);
    assert("needs_reboot"@.len() == 12);
    assert("boot_time"@ != "needs_reboot"@);
    assert forall|i: int| 0 <= i < 7 implies (#[trigger] fields[i]).0 != "needs_reboot"@ by {
        assert(fields[0].0 == "agent_id"@);
        assert(fields[1].0 == "logged_in_username"@);
        assert(fields[2].0 == "hostname"@);
        assert(fields[3].0 == "operating_system"@);
        assert(fields[4].0 == "plat"@);
        assert(fields[5].0 == "total_ram"@);
        assert(fields[6].0 == "boot_time"@);
    }
    lemma_glookup_skip(fields, "needs_reboot"@, 7);
    assert(fields.skip(7)[0] == fields[7]);
    assert(glookup(fields, "needs_reboot"@) == Some(fields[7].1));
    assert("agent_id"@.len() == 8);
    assert("arch"@.len() == 4);
    assert("agent_id"@ != "arch"@);
    assert("logged_in_username"@.len() == 18);
    assert("arch"@.len() == 4);
    assert("logged_in_username"@ != "arch"@);
    assert("hostname"@.len() == 8);
    assert("arch"@.len() == 4);
    assert("hostname"@ != "arch"@);
    assert("operating_system"@.len() == 16);
    assert("arch"@.len() == 4);
    assert("operating_system"@ != "arch"@);
    assert("plat"@[0] == 'p');
    assert("arch"@[0] == 'a');
    assert("plat"@ != "arch"@);
    assert("total_ram"@.len() == 9);
    assert("arch"@.len() == 4);
    assert("total_ram"@ != "arch"@);
    assert("boot_time"@.len() == 9);
    assert("arch"@.len() == 4);
    assert("boot_time"@ != "arch"@);
    assert("needs_reboot"@.len() == 12);
    assert("arch"@.len() == 4);
    assert("needs_reboot"@ != "arch"@);
    assert forall|i: int| 0 <= i < 8 implies (#[trigger] fields[i]).0 != "arch"@ by {
        assert(fields[0].0 == "agent_id"@);
        assert(fields[1].0 == "logged_in_username"@);
        assert(fields[2].0 == "hostname"@);
        assert(fields[3].0 == "operating_system"@);
        assert(fields[4].0 == "plat"@);
        assert(fields[5].0 == "total_ram"@);
        assert(fields[6].0 == "boot_time"@);
        assert(fields[7].0 == "needs_reboot"@);
    }
    lemma_glookup_skip(fields, "arch"@, 8);
    assert(fields.skip(8)[0] == fields[8]);
    assert(glookup(fields, "arch"@) == Some(fields[8].1));
    assert forall|i: int| 0 <= i < fields.len() implies crate::json::wf(#[trigger] fields[i].1) by {
        assert(crate::json::wf(fields[0].1));
        assert(crate::json::wf(fields[1].1));
        assert(crate::json::wf(fields[2].1));
        assert(crate::json::wf(fields[3].1));
        assert(crate::json::wf(fields[4].1));
        assert(crate::json::wf(fields[5].1));
        assert(crate::json::wf(fields[6].1));
        assert(crate::json::wf(fields[7].1));
        assert(crate::json::wf(fields[8].1));
    }
}

/// One platform service record.
#[derive(Debug, Clone)]
pub struct WindowsService {
    pub name: String,
    pub status: String,
    pub display_name: String,
    pub bin_path: String,
    pub description: String,
    pub username: String,
    pub pid: u32,
    pub start_type: String,
    pub delayed_auto_start: bool,
}

impl Default for WindowsService {
    /// The empty record.
    fn default() -> (r: WindowsService)
        ensures
            r.name@.len() == 0,
            r.status@.len() == 0,
            r.display_name@.len() == 0,
            r.bin_path@.len() == 0,
            r.description@.len() == 0,
            r.username@.len() == 0,
            r.pid == 0,
            r.start_type@.len() == 0,
            r.delayed_auto_start == false,
    {
        proof {
            reveal_strlit("");
        }
        WindowsService {
            name: crate::text::string_of(""),
            status: crate::text::string_of(""),
            display_name: crate::text::string_of(""),
            bin_path: crate::text::string_of(""),
            description: crate::text::string_of(""),
            username: crate::text::string_of(""),
            pid: 0,
            start_type: crate::text::string_of(""),
            delayed_auto_start: false,
        }
    }
}

/// How a parsed object's members determine one `WindowsService`.
pub open spec fn win_service_rel(fields: Seq<(Seq<char>, GJson)>, x: WindowsService) -> bool {
    &&& gj_str(glookup(fields, "name"@)) == Some(x.name@)
    &&& gj_str(glookup(fields, "status"@)) == Some(x.status@)
    &&& gj_str(glookup(fields, "display_name"@)) == Some(x.display_name@)
    &&& gj_str(glookup(fields, "binpath"@)) == Some(x.bin_path@)
    &&& gj_str(glookup(fields, "description"@)) == Some(x.description@)
    &&& gj_str(glookup(fields, "username"@)) == Some(x.username@)
    &&& gj_u32(glookup(fields, "pid"@)) == Some(x.pid)
    &&& gj_str(glookup(fields, "start_type"@)) == Some(x.start_type@)
    &&& gj_bool(glookup(fields, "autodelay"@)) == Some(x.delayed_auto_start)
}

/// Whether an object has every member a `WindowsService` needs, well typed.
pub open spec fn win_service_ok(fields: Seq<(Seq<char>, GJson)>) -> bool {
    &&& gj_str(glookup(fields, "name"@)) is Some
    &&& gj_str(glookup(fields, "status"@)) is Some
    &&& gj_str(glookup(fields, "display_name"@)) is Some
    &&& gj_str(glookup(fields, "binpath"@)) is Some
    &&& gj_str(glookup(fields, "description"@)) is Some
    &&& gj_str(glookup(fields, "username"@)) is Some
    &&& gj_u32(glookup(fields, "pid"@)) is Some
    &&& gj_str(glookup(fields, "start_type"@)) is Some
    &&& gj_bool(glookup(fields, "autodelay"@)) is Some
}

/// The canonical members of one `WindowsService`.
pub open spec fn win_service_fields(x: WindowsService) -> Seq<(Seq<char>, GJson)> {
    seq![
        ("name"@, GJson::Str(x.name@)),
        ("status"@, GJson::Str(x.status@)),
        ("display_name"@, GJson::Str(x.display_name@)),
        ("binpath"@, GJson::Str(x.bin_path@)),
        ("description"@, GJson::Str(x.description@)),
        ("username"@, GJson::Str(x.username@)),
        ("pid"@, GJson::Num(dec_digits(x.pid as nat))),
        ("start_type"@, GJson::Str(x.start_type@)),
        ("autodelay"@, GJson::Bool(x.delayed_auto_start)),
    ]
}

pub open spec fn win_service_gj(x: WindowsService) -> GJson {
    GJson::Obj(win_service_fields(x))
}

pub open spec fn win_service_objrel(g: GJson, x: WindowsService) -> bool {
    g matches GJson::Obj(fields) && win_service_rel(fields, x)
}

pub open spec fn win_service_objok(g: GJson) -> bool {
    g matches GJson::Obj(fields) && win_service_ok(fields)
}

pub open spec fn win_service_vec_rel(elems: Seq<GJson>, v: Vec<WindowsService>) -> bool {
    elems.len() == v@.len() && (forall|i: int|
        0 <= i < elems.len() ==> win_service_objrel(#[trigger] elems[i], v@[i]))
}

pub open spec fn win_service_vec_ok(elems: Seq<GJson>) -> bool {
    forall|i: int| 0 <= i < elems.len() ==> win_service_objok(#[trigger] elems[i])
}

pub open spec fn win_service_vec_gj(v: Vec<WindowsService>) -> Seq<GJson> {
    Seq::new(v@.len(), |i: int| win_service_gj(v@[i]))
}

/// Write a vector of `WindowsService` records as an array value.
pub fn win_service_arr_of(v: &Vec<WindowsService>) -> (r: Vec<Json>)
    ensures
        jview_arr(r, 0) =~= win_service_vec_gj(*v),
{
    let mut out: Vec<Json> = Vec::new();
    let mut i: usize = 0;
    while i < v.len()
        invariant
            0 <= i <= v@.len(),
            jview_arr(out, 0) =~= win_service_vec_gj(*v).take(i as int),
        decreases v@.len() - i,
    {
        let ghost o0 = out;
        let item = Json::Obj(v[i].to_obj());
        let ghost ig = item;
        out.push(item);
        proof {
            lemma_jview_arr_push(o0, out, ig);
            assert(jview_arr(out, 0) =~= win_service_vec_gj(*v).take(i + 1));
        }
        i = i + 1;
    }
    proof {
        assert(win_service_vec_gj(*v).take(v@.len() as int) =~= win_service_vec_gj(*v));
    }
    out
}

/// Read an array of `WindowsService` records.
pub fn win_service_vec_from(arr: &Vec<Json>) -> (r: Option<Vec<WindowsService>>)
    ensures
        r is Some <==> win_service_vec_ok(jview_arr(*arr, 0)),
        match r {
            Some(v) => win_service_vec_rel(jview_arr(*arr, 0), v),
            None => true,
        },
{
    proof {
        crate::json::lemma_jview_arr(*arr, 0);
    }
    let mut out: Vec<WindowsService> = Vec::new();
    let mut i: usize = 0;
    while i < arr.len()
        invariant
            0 <= i <= arr@.len(),
            jview_arr(*arr, 0).len() == arr@.len(),
            forall|k: int|
                0 <= k < arr@.len() ==> #[trigger] jview_arr(*arr, 0)[k] == jview(arr@[k]),
            out@.len() == i,
            forall|k: int|
                0 <= k < i ==> win_service_objok(#[trigger] jview_arr(*arr, 0)[k]) && win_service_objrel(
                    jview_arr(*arr, 0)[k],
                    out@[k],
                ),
        decreases arr@.len() - i,
    {
        match &arr[i] {
            Json::Obj(o) => match WindowsService::from_obj(o) {
                Some(t) => { out.push(t); },
                None => {
                    proof {
                        assert(!win_service_objok(jview_arr(*arr, 0)[i as int]));
                    }
                    return None;
                },
            },
            _ => {
                proof {
                    assert(!win_service_objok(jview_arr(*arr, 0)[i as int]));
                }
                return None;
            },
        }
        i = i + 1;
    }
    Some(out)
}

impl WindowsService {
    /// Read one record from a parsed object.
    pub fn from_obj(obj: &Vec<(String, Json)>) -> (r: Option<WindowsService>)
        ensures
            ({
                let fields = jview_obj(*obj, 0);
                &&& (r is Some <==> win_service_ok(fields))
                &&& (match r { Some(x) => win_service_rel(fields, x), None => true })
            }),
    {
    let name = match get_str(obj, "name") { Some(v) => v, None => { return None; } };
    let status = match get_str(obj, "status") { Some(v) => v, None => { return None; } };
    let display_name = match get_str(obj, "display_name") { Some(v) => v, None => { return None; } };
    let bin_path = match get_str(obj, "binpath") { Some(v) => v, None => { return None; } };
    let description = match get_str(obj, "description") { Some(v) => v, None => { return None; } };
    let username = match get_str(obj, "username") { Some(v) => v, None => { return None; } };
    let pid = match get_u32(obj, "pid") { Some(v) => v, None => { return None; } };
    let start_type = match get_str(obj, "start_type") { Some(v) => v, None => { return None; } };
    let delayed_auto_start = match get_bool(obj, "autodelay") { Some(v) => v, None => { return None; } };
    Some(WindowsService { name, status, display_name, bin_path, description, username, pid, start_type, delayed_auto_start })
    }

    /// Write this record's members in canonical order.
    pub fn to_obj(&self) -> (r: Vec<(String, Json)>)
        ensures
            jview_obj(r, 0) =~= win_service_fields(*self),
    {
        let mut obj: Vec<(String, Json)> = Vec::new();
        put(&mut obj, "name", jstr(self.name.as_str()));
        put(&mut obj, "status", jstr(self.status.as_str()));
        put(&mut obj, "display_name", jstr(self.display_name.as_str()));
        put(&mut obj, "binpath", jstr(self.bin_path.as_str()));
        put(&mut obj, "description", jstr(self.description.as_str()));
        put(&mut obj, "username", jstr(self.username.as_str()));
        put(&mut obj, "pid", jnum_u64(self.pid as u64));
        put(&mut obj, "start_type", jstr(self.start_type.as_str()));
        put(&mut obj, "autodelay", Json::Bool(self.delayed_auto_start));
        proof {
            assert(jview_obj(obj, 0) =~= win_service_fields(*self));
        }
        obj
    }

    /// This record as a payload text.
    pub fn encode(&self) -> (r: String)
        ensures
            r@ == crate::json::spec_print(win_service_gj(*self)),
    {
        let obj = self.to_obj();
        let ghost og = obj;
        let j = Json::Obj(obj);
        proof {
            assert(jview_obj(og, 0) =~= win_service_fields(*self));
            assert(j@ == win_service_gj(*self));
        }
        crate::json::json_to_string(&j)
    }

    /// Read one record from a payload text.
    pub fn decode(s: &str) -> (r: Option<WindowsService>)
        ensures
            match crate::json::spec_parse_json(s@) {
                Some(g) => match g {
                    GJson::Obj(fields) => (r is Some <==> win_service_ok(fields)) && (
                    match r { Some(x) => win_service_rel(fields, x), None => true }),
                    _ => r is None,
                },
                None => r is None,
            },
    {
        match crate::json::parse_json_str(s) {
            Some(Json::Obj(obj)) => WindowsService::from_obj(&obj),
            Some(_) => None,
            None => None,
        }
    }
}

/// Writing one `WindowsService` and reading the text back yields the same
/// record, member for member.
#[verifier::rlimit(100)]
#[verifier::spinoff_prover]
pub proof fn lemma_win_service_round_trip(x: WindowsService)
    ensures
        crate::json::wf(win_service_gj(x)),
        crate::json::spec_parse_json(crate::json::spec_print(win_service_gj(x))) == Some(win_service_gj(x)),
        win_service_ok(win_service_fields(x)),
        win_service_rel(win_service_fields(x), x),
{
    lemma_win_service_canonical(x);
    crate::json::lemma_json_round_trip(win_service_gj(x));
}

#[verifier::rlimit(100)]
#[verifier::spinoff_prover]
proof fn lemma_win_service_canonical(x: WindowsService)
    ensures
        crate::json::wf(win_service_gj(x)),
        win_service_ok(win_service_fields(x)),
        win_service_rel(win_service_fields(x), x),
        win_service_objok(win_service_gj(x)),
        win_service_objrel(win_service_gj(x), x),
{
    let fields = win_service_fields(x);
    reveal_strlit("name");
    reveal_strlit("status");
    reveal_strlit("display_name");
    reveal_strlit("binpath");
    reveal_strlit("description");
    reveal_strlit("username");
    reveal_strlit("pid");
    reveal_strlit("start_type");
    reveal_strlit("autodelay");
    lemma_wf_num_u64(x.pid as u64);
    crate::text::lemma_u64_digits_round_trip(x.pid as u64);
    assert forall|i: int| 0 <= i < 0 implies (#[trigger] fields[i]).0 != "name"@ by {
    }
    lemma_glookup_skip(fields, "name"@, 0);
    assert(fields.skip(0)[0] == fields[0]);
    assert(glookup(fields, "name"@) == Some(fields[0].1));
    assert("name"@.len() == 4);
    assert("status"@.len() == 6);
    assert("name"@ != "status"@);
    assert forall|i: int| 0 <= i < 1 implies (#[trigger] fields[i]).0 != "status"@ by {
        assert(fields[0].0 == "name"@);
    }
    lemma_glookup_skip(fields, "status"@, 1);
    assert(fields.skip(1)[0] == fields[1]);
    assert(glookup(fields, "status"@) == Some(fields[1].1));
    assert("name"@.len() == 4);
    assert("display_name"@.len() == 12);
    assert("name"@ != "display_name"@);
    assert("status"@.len() == 6);
    assert("display_name"@.len() == 12);
    assert("status"@ != "display_name"@);
    assert forall|i: int| 0 <= i < 2 implies (#[trigger] fields[i]).0 != "display_name"@ by {
        assert(fields[0].0 == "name"@);
        assert(fields[1].0 == "status"@);
    }
    lemma_glookup_skip(fields, "display_name"@, 2);
    assert(fields.skip(2)[0] == fields[2]);
    assert(glookup(fields, "display_name"@) == Some(fields[2].1));
    assert("name"@.len() == 4);
    assert("binpath"@.len() == 7);
    assert("name"@ != "binpath"@);
    assert("status"@.len() == 6);
    assert("binpath"@.len() == 7);
    assert("status"@ != "binpath"@);
    assert("display_name"@.len() == 12);
    assert("binpath"@.len() == 7);
    assert("display_name"@ != "binpath"@);
    assert forall|i: int| 0 <= i < 3 implies (#[trigger] fields[i]).0 != "binpath"@ by {
        assert(fields[0].0 == "name"@);
        assert(fields[1].0 == "status"@);
        assert(fields[2].0 == "display_name"@);
    }
    lemma_glookup_skip(fields, "binpath"@, 3);
    assert(fields.skip(3)[0] == fields[3]);
    assert(glookup(fields, "binpath"@) == Some(fields[3].1));
    assert("name"@.len() == 4);
    assert("description"@.len() == 11);
    assert("name"@ != "description"@);
    assert("status"@.len() == 6);
    assert("description"@.len() == 11);
    assert("status"@ != "description"@);
    assert("display_name"@.len() == 12);
    assert("description"@.len() == 11);
    assert("display_name"@ != "description"@);
    assert("binpath"@.len() == 7);
    assert("description"@.len() == 11);
    assert("binpath"@ != "description"@);
    assert forall|i: int| 0 <= i < 4 implies (#[trigger] fields[i]).0 != "description"@ by {
        assert(fields[0].0 == "name"@);
        assert(fields[1].0 == "status"@);
        assert(fields[2].0 == "display_name"@);
        assert(fields[3].0 == "binpath"@);
    }
    lemma_glookup_skip(fields, "description"@, 4);
    assert(fields.skip(4)[0] == fields[4]);
    assert(glookup(fields, "description"@) == Some(fields[4].1));
    assert("name"@.len() == 4);
    assert("username"@.len() == 8);
    assert("name"@ != "username"@);
    assert("status"@.len() == 6);
    assert("username"@.len() == 8);
    assert("status"@ != "username"@);
    assert("display_name"@.len() == 12);
    assert("username"@.len() == 8);
    assert("display_name"@ != "username"@);
    assert("binpath"@.len() == 7);
    assert("username"@.len() == 8);
    assert("binpath"@ != "username"@);
    assert("description"@.len() == 11);
    assert("username"@.len() == 8);
    assert("description"@ != "username"@);
    assert forall|i: int| 0 <= i < 5 implies (#[trigger] fields[i]).0 != "username"@ by {
        assert(fields[0].0 == "name"@);
        assert(fields[1].0 == "status"@);
        assert(fields[2].0 == "display_name"@);
        assert(fields[3].0 == "binpath"@);
        assert(fields[4].0 == "description"@);
    }
    lemma_glookup_skip(fields, "username"@, 5);
    assert(fields.skip(5)[0] == fields[5]);
    assert(glookup(fields, "username"@) == Some(fields[5].1));
    assert("name"@.len() == 4);
    assert("pid"@.len() == 3);
    assert("name"@ != "pid"@);
    assert("status"@.len() == 6);
    assert("pid"@.len() == 3);
    assert("status"@ != "pid"@);
    assert("display_name"@.len() == 12);
    assert("pid"@.len() == 3);
    assert("display_name"@ != "pid"@);
    assert("binpath"@.len() == 7);
    assert("pid"@.len() == 3);
    assert("binpath"@ != "pid"@);
    assert("description"@.len() == 11);
    assert("pid"@.len() == 3);
    assert("description"@ != "pid"@);
    assert("username"@.len() == 8);
    assert("pid"@.len() == 3);
    assert("username"@ != "pid"@);
    assert forall|i: int| 0 <= i < 6 implies (#[trigger] fields[i]).0 != "pid"@ by {
        assert(fields[0].0 == "name"@);
        assert(fields[1].0 == "status"@);
        assert(fields[2].0 == "display_name"@);
        assert(fields[3].0 == "binpath"@);
        assert(fields[4].0 == "description"@);
        assert(fields[5].0 == "username"@);
    }
    lemma_glookup_skip(fields, "pid"@, 6);
    assert(fields.skip(6)[0] == fields[6]);
    assert(glookup(fields, "pid"@) == Some(fields[6].1));
    assert("name"@.len() == 4);
    assert("start_type"@.len() == 10);
    assert("name"@ != "start_type"@);
    assert("status"@.len() == 6);
    assert("start_type"@.len() == 10);
    assert("status"@ != "start_type"@);
    assert("display_name"@.len() == 12);
    assert("start_type"@.len() == 10);
    assert("display_name"@ != "start_type"@);
    assert("binpath"@.len() == 7);
    assert("start_type"@.len() == 10);
    assert("binpath"@ != "start_type"@);
    assert("description"@.len() == 11);
    assert("start_type"@.len() == 10);
    assert("description"@ != "start_type"@);
    assert("username"@.len() == 8);
    assert("start_type"@.len() == 10);
    assert("username"@ != "start_type"@);
    assert("pid"@.len() == 3);
    assert("start_type"@.len() == 10);
    assert("pid"@ != "start_type"@);
    assert forall|i: int| 0 <= i < 7 implies (#[trigger] fields[i]).0 != "start_type"@ by {
        assert(fields[0].0 == "name"@);
        assert(fields[1].0 == "status"@);
        assert(fields[2].0 == "display_name"@);
        assert(fields[3].0 == "binpath"@);
        assert(fields[4].0 == "description"@);
        assert(fields[5].0 == "username"@);
        assert(fields[6].0 == "pid"@);
    }
    lemma_glookup_skip(fields, "start_type"@, 7);
    assert(fields.skip(7)[0] == fields[7]);
    assert(glookup(fields, "start_type"@) == Some(fields[7].1));
    assert("name"@.len() == 4);
    assert("autodelay"@.len() == 9);
    assert("name"@ != "autodelay"@);
    assert("status"@.len() == 6);
    assert("autodelay"@.len() == 9);
    assert("status"@ != "autodelay"@);
    assert("display_name"@.len() == 12);
    assert("autodelay"@.len() == 9);
    assert("display_name"@ != "autodelay"@);
    assert("binpath"@.len() == 7);
    assert("autodelay"@.len() == 9);
    assert("binpath"@ != "autodelay"@);
    assert("description"@.len() == 11);
    assert("autodelay"@.len() == 9);
    assert("description"@ != "autodelay"@);
    assert("username"@.len() == 8);
    assert("autodelay"@.len() == 9);
    assert("username"@ != "autodelay"@);
    assert("pid"@.len() == 3);
    assert("autodelay"@.len() == 9);
    assert("pid"@ != "autodelay"@);
    assert("start_type"@.len() == 10);
    assert("autodelay"@.len() == 9);
    assert("start_type"@ != "autodelay"@);
    assert forall|i: int| 0 <= i < 8 implies (#[trigger] fields[i]).0 != "autodelay"@ by {
        assert(fields[0].0 == "name"@);
        assert(fields[1].0 == "status"@);
        assert(fields[2].0 == "display_name"@);
        assert(fields[3].0 == "binpath"@);
        assert(fields[4].0 == "description"@);
        assert(fields[5].0 == "username"@);
        assert(fields[6].0 == "pid"@);
        assert(fields[7].0 == "start_type"@);
    }
    lemma_glookup_skip(fields, "autodelay"@, 8);
    assert(fields.skip(8)[0] == fields[8]);
    assert(glookup(fields, "autodelay"@) == Some(fields[8].1));
    assert forall|i: int| 0 <= i < fields.len() implies crate::json::wf(#[trigger] fields[i].1) by {
        assert(crate::json::wf(fields[0].1));
        assert(crate::json::wf(fields[1].1));
        assert(crate::json::wf(fields[2].1));
        assert(crate::json::wf(fields[3].1));
        assert(crate::json::wf(fields[4].1));
        assert(crate::json::wf(fields[5].1));
        assert(crate::json::wf(fields[6].1));
        assert(crate::json::wf(fields[7].1));
        assert(crate::json::wf(fields[8].1));
    }
}

/// The service-list snapshot.
#[derive(Debug, Clone)]
pub struct WinSvcNats {
    pub agent_id: String,
    pub win_svcs: Vec<WindowsService>,
}

impl Default for WinSvcNats {
    /// The empty record.
    fn default() -> (r: WinSvcNats)
        ensures
            r.agent_id@.len() == 0,
            r.win_svcs@.len() == 0,
    {
        proof {
            reveal_strlit("");
        }
        WinSvcNats {
            agent_id: crate::text::string_of(""),
            win_svcs: Vec::new(),
        }
    }
}

/// How a parsed object's members determine one `WinSvcNats`.
pub open spec fn win_svc_rel(fields: Seq<(Seq<char>, GJson)>, x: WinSvcNats) -> bool {
    &&& gj_str(glookup(fields, "agent_id"@)) == Some(x.agent_id@)
    &&& gj_arr(glookup(fields, "services"@)) matches Some(elems) && win_service_vec_rel(elems, x.win_svcs)
}

/// Whether an object has every member a `WinSvcNats` needs, well typed.
pub open spec fn win_svc_ok(fields: Seq<(Seq<char>, GJson)>) -> bool {
    &&& gj_str(glookup(fields, "agent_id"@)) is Some
    &&& gj_arr(glookup(fields, "services"@)) matches Some(elems) && win_service_vec_ok(elems)
}

/// The canonical members of one `WinSvcNats`.
pub open spec fn win_svc_fields(x: WinSvcNats) -> Seq<(Seq<char>, GJson)> {
    seq![
        ("agent_id"@, GJson::Str(x.agent_id@)),
        ("services"@, GJson::Arr(win_service_vec_gj(x.win_svcs))),
    ]
}

pub open spec fn win_svc_gj(x: WinSvcNats) -> GJson {
    GJson::Obj(win_svc_fields(x))
}

pub open spec fn win_svc_objrel(g: GJson, x: WinSvcNats) -> bool {
    g matches GJson::Obj(fields) && win_svc_rel(fields, x)
}

pub open spec fn win_svc_objok(g: GJson) -> bool {
    g matches GJson::Obj(fields) && win_svc_ok(fields)
}

pub open spec fn win_svc_vec_rel(elems: Seq<GJson>, v: Vec<WinSvcNats>) -> bool {
    elems.len() == v@.len() && (forall|i: int|
        0 <= i < elems.len() ==> win_svc_objrel(#[trigger] elems[i], v@[i]))
}

pub open spec fn win_svc_vec_ok(elems: Seq<GJson>) -> bool {
    forall|i: int| 0 <= i < elems.len() ==> win_svc_objok(#[trigger] elems[i])
}

pub open spec fn win_svc_vec_gj(v: Vec<WinSvcNats>) -> Seq<GJson> {
    Seq::new(v@.len(), |i: int| win_svc_gj(v@[i]))
}

/// Write a vector of `WinSvcNats` records as an array value.
pub fn win_svc_arr_of(v: &Vec<WinSvcNats>) -> (r: Vec<Json>)
    ensures
        jview_arr(r, 0) =~= win_svc_vec_gj(*v),
{
    let mut out: Vec<Json> = Vec::new();
    let mut i: usize = 0;
    while i < v.len()
        invariant
            0 <= i <= v@.len(),
            jview_arr(out, 0) =~= win_svc_vec_gj(*v).take(i as int),
        decreases v@.len() - i,
    {
        let ghost o0 = out;
        let item = Json::Obj(v[i].to_obj());
        let ghost ig = item;
        out.push(item);
        proof {
            lemma_jview_arr_push(o0, out, ig);
            assert(jview_arr(out, 0) =~= win_svc_vec_gj(*v).take(i + 1));
        }
        i = i + 1;
    }
    proof {
        assert(win_svc_vec_gj(*v).take(v@.len() as int) =~= win_svc_vec_gj(*v));
    }
    out
}

/// Read an array of `WinSvcNats` records.
pub fn win_svc_vec_from(arr: &Vec<Json>) -> (r: Option<Vec<WinSvcNats>>)
    ensures
        r is Some <==> win_svc_vec_ok(jview_arr(*arr, 0)),
        match r {
            Some(v) => win_svc_vec_rel(jview_arr(*arr, 0), v),
            None => true,
        },
{
    proof {
        crate::json::lemma_jview_arr(*arr, 0);
    }
    let mut out: Vec<WinSvcNats> = Vec::new();
    let mut i: usize = 0;
    while i < arr.len()
        invariant
            0 <= i <= arr@.len(),
            jview_arr(*arr, 0).len() == arr@.len(),
            forall|k: int|
                0 <= k < arr@.len() ==> #[trigger] jview_arr(*arr, 0)[k] == jview(arr@[k]),
            out@.len() == i,
            forall|k: int|
                0 <= k < i ==> win_svc_objok(#[trigger] jview_arr(*arr, 0)[k]) && win_svc_objrel(
                    jview_arr(*arr, 0)[k],
                    out@[k],
                ),
        decreases arr@.len() - i,
    {
        match &arr[i] {
            Json::Obj(o) => match WinSvcNats::from_obj(o) {
                Some(t) => { out.push(t); },
                None => {
                    proof {
                        assert(!win_svc_objok(jview_arr(*arr, 0)[i as int]));
                    }
                    return None;
                },
            },
            _ => {
                proof {
                    assert(!win_svc_objok(jview_arr(*arr, 0)[i as int]));
                }
                return None;
            },
        }
        i = i + 1;
    }
    Some(out)
}

impl WinSvcNats {
    /// Read one record from a parsed object.
    pub fn from_obj(obj: &Vec<(String, Json)>) -> (r: Option<WinSvcNats>)
        ensures
            ({
                let fields = jview_obj(*obj, 0);
                &&& (r is Some <==> win_svc_ok(fields))
                &&& (match r { Some(x) => win_svc_rel(fields, x), None => true })
            }),
    {
    let agent_id = match get_str(obj, "agent_id") { Some(v) => v, None => { return None; } };
    let arr_win_svcs = match get_arr(obj, "services") { Some(a) => a, None => { return None; } };
    proof {
        crate::json::lemma_jview_arr(*arr_win_svcs, 0);
    }
    let mut win_svcs: Vec<WindowsService> = Vec::new();
    let mut i_win_svcs: usize = 0;
    while i_win_svcs < arr_win_svcs.len()
        invariant
            0 <= i_win_svcs <= arr_win_svcs@.len(),
            gj_arr(glookup(jview_obj(*obj, 0), "services"@)) == Some(jview_arr(*arr_win_svcs, 0)),
            jview_arr(*arr_win_svcs, 0).len() == arr_win_svcs@.len(),
            forall|k: int|
                0 <= k < arr_win_svcs@.len() ==> #[trigger] jview_arr(*arr_win_svcs, 0)[k] == jview(
                    arr_win_svcs@[k],
                ),
            win_svcs@.len() == i_win_svcs,
            forall|k: int|
                0 <= k < i_win_svcs ==> win_service_objok(#[trigger] jview_arr(*arr_win_svcs, 0)[k]) && win_service_objrel(
                    jview_arr(*arr_win_svcs, 0)[k],
                    win_svcs@[k],
                ),
        decreases arr_win_svcs@.len() - i_win_svcs,
    {
        match &arr_win_svcs[i_win_svcs] {
            Json::Obj(o) => match WindowsService::from_obj(o) {
                Some(t) => { win_svcs.push(t); },
                None => {
                    proof {
                        assert(!win_service_objok(jview_arr(*arr_win_svcs, 0)[i_win_svcs as int]));
                    }
                    return None;
                },
            },
            _ => {
                proof {
                    assert(!win_service_objok(jview_arr(*arr_win_svcs, 0)[i_win_svcs as int]));
                }
                return None;
            },
        }
        i_win_svcs = i_win_svcs + 1;
    }
    Some(WinSvcNats { agent_id, win_svcs })
    }

    /// Write this record's members in canonical order.
    pub fn to_obj(&self) -> (r: Vec<(String, Json)>)
        ensures
            jview_obj(r, 0) =~= win_svc_fields(*self),
    {
        let mut obj: Vec<(String, Json)> = Vec::new();
        put(&mut obj, "agent_id", jstr(self.agent_id.as_str()));
        put(&mut obj, "services", Json::Arr(win_service_arr_of(&self.win_svcs)));
        proof {
            assert(jview_obj(obj, 0) =~= win_svc_fields(*self));
        }
        obj
    }

    /// This record as a payload text.
    pub fn encode(&self) -> (r: String)
        ensures
            r@ == crate::json::spec_print(win_svc_gj(*self)),
    {
        let obj = self.to_obj();
        let ghost og = obj;
        let j = Json::Obj(obj);
        proof {
            assert(jview_obj(og, 0) =~= win_svc_fields(*self));
            assert(j@ == win_svc_gj(*self));
        }
        crate::json::json_to_string(&j)
    }

    /// Read one record from a payload text.
    pub fn decode(s: &str) -> (r: Option<WinSvcNats>)
        ensures
            match crate::json::spec_parse_json(s@) {
                Some(g) => match g {
                    GJson::Obj(fields) => (r is Some <==> win_svc_ok(fields)) && (
                    match r { Some(x) => win_svc_rel(fields, x), None => true }),
                    _ => r is None,
                },
                None => r is None,
            },
    {
        match crate::json::parse_json_str(s) {
            Some(Json::Obj(obj)) => WinSvcNats::from_obj(&obj),
            Some(_) => None,
            None => None,
        }
    }
}

/// Writing one `WinSvcNats` and reading the text back yields the same
/// record, member for member.
#[verifier::rlimit(100)]
#[verifier::spinoff_prover]
pub proof fn lemma_win_svc_round_trip(x: WinSvcNats)
    ensures
        crate::json::wf(win_svc_gj(x)),
        crate::json::spec_parse_json(crate::json::spec_print(win_svc_gj(x))) == Some(win_svc_gj(x)),
        win_svc_ok(win_svc_fields(x)),
        win_svc_rel(win_svc_fields(x), x),
{
    lemma_win_svc_canonical(x);
    crate::json::lemma_json_round_trip(win_svc_gj(x));
}

#[verifier::rlimit(100)]
#[verifier::spinoff_prover]
proof fn lemma_win_svc_canonical(x: WinSvcNats)
    ensures
        crate::json::wf(win_svc_gj(x)),
        win_svc_ok(win_svc_fields(x)),
        win_svc_rel(win_svc_fields(x), x),
        win_svc_objok(win_svc_gj(x)),
        win_svc_objrel(win_svc_gj(x), x),
{
    let fields = win_svc_fields(x);
    reveal_strlit("agent_id");
    reveal_strlit("services");
    assert forall|k: int| 0 <= k < win_service_vec_gj(x.win_svcs).len() implies crate::json::wf(#[trigger] win_service_vec_gj(x.win_svcs)[k]) && win_service_objok(win_service_vec_gj(x.win_svcs)[k]) && win_service_objrel(win_service_vec_gj(x.win_svcs)[k], x.win_svcs@[k]) by {
        lemma_win_service_canonical(x.win_svcs@[k]);
    }
    assert forall|i: int| 0 <= i < 0 implies (#[trigger] fields[i]).0 != "agent_id"@ by {
    }
    lemma_glookup_skip(fields, "agent_id"@, 0);
    assert(fields.skip(0)[0] == fields[0]);
    assert(glookup(fields, "agent_id"@) == Some(fields[0].1));
    assert("agent_id"@[0] == 'a');
    assert("services"@[0] == 's');
    assert("agent_id"@ != "services"@);
    assert forall|i: int| 0 <= i < 1 implies (#[trigger] fields[i]).0 != "services"@ by {
        assert(fields[0].0 == "agent_id"@);
    }
    lemma_glookup_skip(fields, "services"@, 1);
    assert(fields.skip(1)[0] == fields[1]);
    assert(glookup(fields, "services"@) == Some(fields[1].1));
    assert forall|i: int| 0 <= i < fields.len() implies crate::json::wf(#[trigger] fields[i].1) by {
        assert(crate::json::wf(fields[0].1));
        assert(crate::json::wf(fields[1].1));
    }
}

/// The inventory snapshot: an opaque report tree.
#[derive(Debug)]
pub struct WinWMINats {
    pub agent_id: String,
    pub wmi: Json,
}

impl Default for WinWMINats {
    /// The empty record.
    fn default() -> (r: WinWMINats)
        ensures
            r.agent_id@.len() == 0,
            r.wmi@ is Null,
    {
        proof {
            reveal_strlit("");
        }
        WinWMINats {
            agent_id: crate::text::string_of(""),
            wmi: Json::Null,
        }
    }
}

/// How a parsed object's members determine one `WinWMINats`.
pub open spec fn win_wmi_rel(fields: Seq<(Seq<char>, GJson)>, x: WinWMINats) -> bool {
    &&& gj_str(glookup(fields, "agent_id"@)) == Some(x.agent_id@)
    &&& glookup(fields, "wmi"@) == Some(x.wmi@)
}

/// Whether an object has every member a `WinWMINats` needs, well typed.
pub open spec fn win_wmi_ok(fields: Seq<(Seq<char>, GJson)>) -> bool {
    &&& gj_str(glookup(fields, "agent_id"@)) is Some
    &&& glookup(fields, "wmi"@) is Some
}

/// The canonical members of one `WinWMINats`.
pub open spec fn win_wmi_fields(x: WinWMINats) -> Seq<(Seq<char>, GJson)> {
    seq![
        ("agent_id"@, GJson::Str(x.agent_id@)),
        ("wmi"@, x.wmi@),
    ]
}

pub open spec fn win_wmi_gj(x: WinWMINats) -> GJson {
    GJson::Obj(win_wmi_fields(x))
}

pub open spec fn win_wmi_objrel(g: GJson, x: WinWMINats) -> bool {
    g matches GJson::Obj(fields) && win_wmi_rel(fields, x)
}

pub open spec fn win_wmi_objok(g: GJson) -> bool {
    g matches GJson::Obj(fields) && win_wmi_ok(fields)
}

pub open spec fn win_wmi_vec_rel(elems: Seq<GJson>, v: Vec<WinWMINats>) -> bool {
    elems.len() == v@.len() && (forall|i: int|
        0 <= i < elems.len() ==> win_wmi_objrel(#[trigger] elems[i], v@[i]))
}

pub open spec fn win_wmi_vec_ok(elems: Seq<GJson>) -> bool {
    forall|i: int| 0 <= i < elems.len() ==> win_wmi_objok(#[trigger] elems[i])
}

pub open spec fn win_wmi_vec_gj(v: Vec<WinWMINats>) -> Seq<GJson> {
    Seq::new(v@.len(), |i: int| win_wmi_gj(v@[i]))
}

/// Write a vector of `WinWMINats` records as an array value.
pub fn win_wmi_arr_of(v: &Vec<WinWMINats>) -> (r: Vec<Json>)
    ensures
        jview_arr(r, 0) =~= win_wmi_vec_gj(*v),
{
    let mut out: Vec<Json> = Vec::new();
    let mut i: usize = 0;
    while i < v.len()
        invariant
            0 <= i <= v@.len(),
            jview_arr(out, 0) =~= win_wmi_vec_gj(*v).take(i as int),
        decreases v@.len() - i,
    {
        let ghost o0 = out;
        let item = Json::Obj(v[i].to_obj());
        let ghost ig = item;
        out.push(item);
        proof {
            lemma_jview_arr_push(o0, out, ig);
            assert(jview_arr(out, 0) =~= win_wmi_vec_gj(*v).take(i + 1));
        }
        i = i + 1;
    }
    proof {
        assert(win_wmi_vec_gj(*v).take(v@.len() as int) =~= win_wmi_vec_gj(*v));
    }
    out
}

/// Read an array of `WinWMINats` records.
pub fn win_wmi_vec_from(arr: &Vec<Json>) -> (r: Option<Vec<WinWMINats>>)
    ensures
        r is Some <==> win_wmi_vec_ok(jview_arr(*arr, 0)),
        match r {
            Some(v) => win_wmi_vec_rel(jview_arr(*arr, 0), v),
            None => true,
        },
{
    proof {
        crate::json::lemma_jview_arr(*arr, 0);
    }
    let mut out: Vec<WinWMINats> = Vec::new();
    let mut i: usize = 0;
    while i < arr.len()
        invariant
            0 <= i <= arr@.len(),
            jview_arr(*arr, 0).len() == arr@.len(),
            forall|k: int|
                0 <= k < arr@.len() ==> #[trigger] jview_arr(*arr, 0)[k] == jview(arr@[k]),
            out@.len() == i,
            forall|k: int|
                0 <= k < i ==> win_wmi_objok(#[trigger] jview_arr(*arr, 0)[k]) && win_wmi_objrel(
                    jview_arr(*arr, 0)[k],
                    out@[k],
                ),
        decreases arr@.len() - i,
    {
        match &arr[i] {
            Json::Obj(o) => match WinWMINats::from_obj(o) {
                Some(t) => { out.push(t); },
                None => {
                    proof {
                        assert(!win_wmi_objok(jview_arr(*arr, 0)[i as int]));
                    }
                    return None;
                },
            },
            _ => {
                proof {
                    assert(!win_wmi_objok(jview_arr(*arr, 0)[i as int]));
                }
                return None;
            },
        }
        i = i + 1;
    }
    Some(out)
}

impl WinWMINats {
    /// Read one record from a parsed object.
    pub fn from_obj(obj: &Vec<(String, Json)>) -> (r: Option<WinWMINats>)
        ensures
            ({
                let fields = jview_obj(*obj, 0);
                &&& (r is Some <==> win_wmi_ok(fields))
                &&& (match r { Some(x) => win_wmi_rel(fields, x), None => true })
            }),
    {
    let agent_id = match get_str(obj, "agent_id") { Some(v) => v, None => { return None; } };
    let wmi = match get_val(obj, "wmi") { Some(v) => v.deep_clone(), None => { return None; } };
    Some(WinWMINats { agent_id, wmi })
    }

    /// Write this record's members in canonical order.
    pub fn to_obj(&self) -> (r: Vec<(String, Json)>)
        ensures
            jview_obj(r, 0) =~= win_wmi_fields(*self),
    {
        let mut obj: Vec<(String, Json)> = Vec::new();
        put(&mut obj, "agent_id", jstr(self.agent_id.as_str()));
        put(&mut obj, "wmi", self.wmi.deep_clone());
        proof {
            assert(jview_obj(obj, 0) =~= win_wmi_fields(*self));
        }
        obj
    }

    /// This record as a payload text.
    pub fn encode(&self) -> (r: String)
        ensures
            r@ == crate::json::spec_print(win_wmi_gj(*self)),
    {
        let obj = self.to_obj();
        let ghost og = obj;
        let j = Json::Obj(obj);
        proof {
            assert(jview_obj(og, 0) =~= win_wmi_fields(*self));
            assert(j@ == win_wmi_gj(*self));
        }
        crate::json::json_to_string(&j)
    }

    /// Read one record from a payload text.
    pub fn decode(s: &str) -> (r: Option<WinWMINats>)
        ensures
            match crate::json::spec_parse_json(s@) {
                Some(g) => match g {
                    GJson::Obj(fields) => (r is Some <==> win_wmi_ok(fields)) && (
                    match r { Some(x) => win_wmi_rel(fields, x), None => true }),
                    _ => r is None,
                },
                None => r is None,
            },
    {
        match crate::json::parse_json_str(s) {
            Some(Json::Obj(obj)) => WinWMINats::from_obj(&obj),
            Some(_) => None,
            None => None,
        }
    }
}

/// Writing one `WinWMINats` and reading the text back yields the same
/// record, member for member.
#[verifier::rlimit(100)]
#[verifier::spinoff_prover]
pub proof fn lemma_win_wmi_round_trip(x: WinWMINats)
    requires
        crate::json::wf(x.wmi@),
    ensures
        crate::json::wf(win_wmi_gj(x)),
        crate::json::spec_parse_json(crate::json::spec_print(win_wmi_gj(x))) == Some(win_wmi_gj(x)),
        win_wmi_ok(win_wmi_fields(x)),
        win_wmi_rel(win_wmi_fields(x), x),
{
    lemma_win_wmi_canonical(x);
    crate::json::lemma_json_round_trip(win_wmi_gj(x));
}

#[verifier::rlimit(100)]
#[verifier::spinoff_prover]
proof fn lemma_win_wmi_canonical(x: WinWMINats)
    requires
        crate::json::wf(x.wmi@),
    ensures
        crate::json::wf(win_wmi_gj(x)),
        win_wmi_ok(win_wmi_fields(x)),
        win_wmi_rel(win_wmi_fields(x), x),
        win_wmi_objok(win_wmi_gj(x)),
        win_wmi_objrel(win_wmi_gj(x), x),
{
    let fields = win_wmi_fields(x);
    reveal_strlit("agent_id");
    reveal_strlit("wmi");
    assert forall|i: int| 0 <= i < 0 implies (#[trigger] fields[i]).0 != "agent_id"@ by {
    }
    lemma_glookup_skip(fields, "agent_id"@, 0);
    assert(fields.skip(0)[0] == fields[0]);
    assert(glookup(fields, "agent_id"@) == Some(fields[0].1));
    assert("agent_id"@.len() == 8);
    assert("wmi"@.len() == 3);
    assert("agent_id"@ != "wmi"@);
    assert forall|i: int| 0 <= i < 1 implies (#[trigger] fields[i]).0 != "wmi"@ by {
        assert(fields[0].0 == "agent_id"@);
    }
    lemma_glookup_skip(fields, "wmi"@, 1);
    assert(fields.skip(1)[0] == fields[1]);
    assert(glookup(fields, "wmi"@) == Some(fields[1].1));
    assert forall|i: int| 0 <= i < fields.len() implies crate::json::wf(#[trigger] fields[i].1) by {
        assert(crate::json::wf(fields[0].1));
        assert(crate::json::wf(fields[1].1));
    }
}

/// One mounted filesystem, sizes in human form.
#[derive(Debug, Clone)]
pub struct Disk {
    pub device: String,
    pub fstype: String,
    pub total: String,
    pub used: String,
    pub free: String,
    pub percent: i32,
}

impl Default for Disk {
    /// The empty record.
    fn default() -> (r: Disk)
        ensures
            r.device@.len() == 0,
            r.fstype@.len() == 0,
            r.total@.len() == 0,
            r.used@.len() == 0,
            r.free@.len() == 0,
            r.percent == 0,
    {
        proof {
            reveal_strlit("");
        }
        Disk {
            device: crate::text::string_of(""),
            fstype: crate::text::string_of(""),
            total: crate::text::string_of(""),
            used: crate::text::string_of(""),
            free: crate::text::string_of(""),
            percent: 0,
        }
    }
}

/// How a parsed object's members determine one `Disk`.
pub open spec fn disk_rel(fields: Seq<(Seq<char>, GJson)>, x: Disk) -> bool {
    &&& gj_str(glookup(fields, "device"@)) == Some(x.device@)
    &&& gj_str(glookup(fields, "fstype"@)) == Some(x.fstype@)
    &&& gj_str(glookup(fields, "total"@)) == Some(x.total@)
    &&& gj_str(glookup(fields, "used"@)) == Some(x.used@)
    &&& gj_str(glookup(fields, "free"@)) == Some(x.free@)
    &&& gj_i32(glookup(fields, "percent"@)) == Some(x.percent)
}

/// Whether an object has every member a `Disk` needs, well typed.
pub open spec fn disk_ok(fields: Seq<(Seq<char>, GJson)>) -> bool {
    &&& gj_str(glookup(fields, "device"@)) is Some
    &&& gj_str(glookup(fields, "fstype"@)) is Some
    &&& gj_str(glookup(fields, "total"@)) is Some
    &&& gj_str(glookup(fields, "used"@)) is Some
    &&& gj_str(glookup(fields, "free"@)) is Some
    &&& gj_i32(glookup(fields, "percent"@)) is Some
}

/// The canonical members of one `Disk`.
pub open spec fn disk_fields(x: Disk) -> Seq<(Seq<char>, GJson)> {
    seq![
        ("device"@, GJson::Str(x.device@)),
        ("fstype"@, GJson::Str(x.fstype@)),
        ("total"@, GJson::Str(x.total@)),
        ("used"@, GJson::Str(x.used@)),
        ("free"@, GJson::Str(x.free@)),
        ("percent"@, GJson::Num(int_digits(x.percent as int))),
    ]
}

pub open spec fn disk_gj(x: Disk) -> GJson {
    GJson::Obj(disk_fields(x))
}

pub open spec fn disk_objrel(g: GJson, x: Disk) -> bool {
    g matches GJson::Obj(fields) && disk_rel(fields, x)
}

pub open spec fn disk_objok(g: GJson) -> bool {
    g matches GJson::Obj(fields) && disk_ok(fields)
}

pub open spec fn disk_vec_rel(elems: Seq<GJson>, v: Vec<Disk>) -> bool {
    elems.len() == v@.len() && (forall|i: int|
        0 <= i < elems.len() ==> disk_objrel(#[trigger] elems[i], v@[i]))
}

pub open spec fn disk_vec_ok(elems: Seq<GJson>) -> bool {
    forall|i: int| 0 <= i < elems.len() ==> disk_objok(#[trigger] elems[i])
}

pub open spec fn disk_vec_gj(v: Vec<Disk>) -> Seq<GJson> {
    Seq::new(v@.len(), |i: int| disk_gj(v@[i]))
}

/// Write a vector of `Disk` records as an array value.
pub fn disk_arr_of(v: &Vec<Disk>) -> (r: Vec<Json>)
    ensures
        jview_arr(r, 0) =~= disk_vec_gj(*v),
{
    let mut out: Vec<Json> = Vec::new();
    let mut i: usize = 0;
    while i < v.len()
        invariant
            0 <= i <= v@.len(),
            jview_arr(out, 0) =~= disk_vec_gj(*v).take(i as int),
        decreases v@.len() - i,
    {
        let ghost o0 = out;
        let item = Json::Obj(v[i].to_obj());
        let ghost ig = item;
        out.push(item);
        proof {
            lemma_jview_arr_push(o0, out, ig);
            assert(jview_arr(out, 0) =~= disk_vec_gj(*v).take(i + 1));
        }
        i = i + 1;
    }
    proof {
        assert(disk_vec_gj(*v).take(v@.len() as int) =~= disk_vec_gj(*v));
    }
    out
}

/// Read an array of `Disk` records.
pub fn disk_vec_from(arr: &Vec<Json>) -> (r: Option<Vec<Disk>>)
    ensures
        r is Some <==> disk_vec_ok(jview_arr(*arr, 0)),
        match r {
            Some(v) => disk_vec_rel(jview_arr(*arr, 0), v),
            None => true,
        },
{
    proof {
        crate::json::lemma_jview_arr(*arr, 0);
    }
    let mut out: Vec<Disk> = Vec::new();
    let mut i: usize = 0;
    while i < arr.len()
        invariant
            0 <= i <= arr@.len(),
            jview_arr(*arr, 0).len() == arr@.len(),
            forall|k: int|
                0 <= k < arr@.len() ==> #[trigger] jview_arr(*arr, 0)[k] == jview(arr@[k]),
            out@.len() == i,
            forall|k: int|
                0 <= k < i ==> disk_objok(#[trigger] jview_arr(*arr, 0)[k]) && disk_objrel(
                    jview_arr(*arr, 0)[k],
                    out@[k],
                ),
        decreases arr@.len() - i,
    {
        match &arr[i] {
            Json::Obj(o) => match Disk::from_obj(o) {
                Some(t) => { out.push(t); },
                None => {
                    proof {
                        assert(!disk_objok(jview_arr(*arr, 0)[i as int]));
                    }
                    return None;
                },
            },
            _ => {
                proof {
                    assert(!disk_objok(jview_arr(*arr, 0)[i as int]));
                }
                return None;
            },
        }
        i = i + 1;
    }
    Some(out)
}

impl Disk {
    /// Read one record from a parsed object.
    pub fn from_obj(obj: &Vec<(String, Json)>) -> (r: Option<Disk>)
        ensures
            ({
                let fields = jview_obj(*obj, 0);
                &&& (r is Some <==> disk_ok(fields))
                &&& (match r { Some(x) => disk_rel(fields, x), None => true })
            }),
    {
    let device = match get_str(obj, "device") { Some(v) => v, None => { return None; } };
    let fstype = match get_str(obj, "fstype") { Some(v) => v, None => { return None; } };
    let total = match get_str(obj, "total") { Some(v) => v, None => { return None; } };
    let used = match get_str(obj, "used") { Some(v) => v, None => { return None; } };
    let free = match get_str(obj, "free") { Some(v) => v, None => { return None; } };
    let percent = match get_i32(obj, "percent") { Some(v) => v, None => { return None; } };
    Some(Disk { device, fstype, total, used, free, percent })
    }

    /// Write this record's members in canonical order.
    pub fn to_obj(&self) -> (r: Vec<(String, Json)>)
        ensures
            jview_obj(r, 0) =~= disk_fields(*self),
    {
        let mut obj: Vec<(String, Json)> = Vec::new();
        put(&mut obj, "device", jstr(self.device.as_str()));
        put(&mut obj, "fstype", jstr(self.fstype.as_str()));
        put(&mut obj, "total", jstr(self.total.as_str()));
        put(&mut obj, "used", jstr(self.used.as_str()));
        put(&mut obj, "free", jstr(self.free.as_str()));
        put(&mut obj, "percent", jnum_i64(self.percent as i64));
        proof {
            assert(jview_obj(obj, 0) =~= disk_fields(*self));
        }
        obj
    }

    /// This record as a payload text.
    pub fn encode(&self) -> (r: String)
        ensures
            r@ == crate::json::spec_print(disk_gj(*self)),
    {
        let obj = self.to_obj();
        let ghost og = obj;
        let j = Json::Obj(obj);
        proof {
            assert(jview_obj(og, 0) =~= disk_fields(*self));
            assert(j@ == disk_gj(*self));
        }
        crate::json::json_to_string(&j)
    }

    /// Read one record from a payload text.
    pub fn decode(s: &str) -> (r: Option<Disk>)
        ensures
            match crate::json::spec_parse_json(s@) {
                Some(g) => match g {
                    GJson::Obj(fields) => (r is Some <==> disk_ok(fields)) && (
                    match r { Some(x) => disk_rel(fields, x), None => true }),
                    _ => r is None,
                },
                None => r is None,
            },
    {
        match crate::json::parse_json_str(s) {
            Some(Json::Obj(obj)) => Disk::from_obj(&obj),
            Some(_) => None,
            None => None,
        }
    }
}

/// Writing one `Disk` and reading the text back yields the same
/// record, member for member.
#[verifier::rlimit(100)]
#[verifier::spinoff_prover]
pub proof fn lemma_disk_round_trip(x: Disk)
    ensures
        crate::json::wf(disk_gj(x)),
        crate::json::spec_parse_json(crate::json::spec_print(disk_gj(x))) == Some(disk_gj(x)),
        disk_ok(disk_fields(x)),
        disk_rel(disk_fields(x), x),
{
    lemma_disk_canonical(x);
    crate::json::lemma_json_round_trip(disk_gj(x));
}

#[verifier::rlimit(100)]
#[verifier::spinoff_prover]
proof fn lemma_disk_canonical(x: Disk)
    ensures
        crate::json::wf(disk_gj(x)),
        disk_ok(disk_fields(x)),
        disk_rel(disk_fields(x), x),
        disk_objok(disk_gj(x)),
        disk_objrel(disk_gj(x), x),
{
    let fields = disk_fields(x);
    reveal_strlit("device");
    reveal_strlit("fstype");
    reveal_strlit("total");
    reveal_strlit("used");
    reveal_strlit("free");
    reveal_strlit("percent");
    lemma_wf_num_i64(x.percent as i64);
    crate::text::lemma_i64_digits_round_trip(x.percent as i64);
    assert forall|i: int| 0 <= i < 0 implies (#[trigger] fields[i]).0 != "device"@ by {
    }
    lemma_glookup_skip(fields, "device"@, 0);
    assert(fields.skip(0)[0] == fields[0]);
    assert(glookup(fields, "device"@) == Some(fields[0].1));
    assert("device"@[0] == 'd');
    assert("fstype"@[0] == 'f');
    assert("device"@ != "fstype"@);
    assert forall|i: int| 0 <= i < 1 implies (#[trigger] fields[i]).0 != "fstype"@ by {
        assert(fields[0].0 == "device"@);
    }
    lemma_glookup_skip(fields, "fstype"@, 1);
    assert(fields.skip(1)[0] == fields[1]);
    assert(glookup(fields, "fstype"@) == Some(fields[1].1));
    assert("device"@.len() == 6);
    assert("total"@.len() == 5);
    assert("device"@ != "total"@);
    assert("fstype"@.len() == 6);
    assert("total"@.len() == 5);
    assert("fstype"@ != "total"@);
    assert forall|i: int| 0 <= i < 2 implies (#[trigger] fields[i]).0 != "total"@ by {
        assert(fields[0].0 == "device"@);
        assert(fields[1].0 == "fstype"@);
    }
    lemma_glookup_skip(fields, "total"@, 2);
    assert(fields.skip(2)[0] == fields[2]);
    assert(glookup(fields, "total"@) == Some(fields[2].1));
    assert("device"@.len() == 6);
    assert("used"@.len() == 4);
    assert("device"@ != "used"@);
    assert("fstype"@.len() == 6);
    assert("used"@.len() == 4);
    assert("fstype"@ != "used"@);
    assert("total"@.len() == 5);
    assert("used"@.len() == 4);
    assert("total"@ != "used"@);
    assert forall|i: int| 0 <= i < 3 implies (#[trigger] fields[i]).0 != "used"@ by {
        assert(fields[0].0 == "device"@);
        assert(fields[1].0 == "fstype"@);
        assert(fields[2].0 == "total"@);
    }
    lemma_glookup_skip(fields, "used"@, 3);
    assert(fields.skip(3)[0] == fields[3]);
    assert(glookup(fields, "used"@) == Some(fields[3].1));
    assert("device"@.len() == 6);
    assert("free"@.len() == 4);
    assert("device"@ != "free"@);
    assert("fstype"@.len() == 6);
    assert("free"@.len() == 4);
    assert("fstype"@ != "free"@);
    assert("total"@.len() == 5);
    assert("free"@.len() == 4);
    assert("total"@ != "free"@);
    assert("used"@[0] == 'u');
    assert("free"@[0] == 'f');
    assert("used"@ != "free"@);
    assert forall|i: int| 0 <= i < 4 implies (#[trigger] fields[i]).0 != "free"@ by {
        assert(fields[0].0 == "device"@);
        assert(fields[1].0 == "fstype"@);
        assert(fields[2].0 == "total"@);
        assert(fields[3].0 == "used"@);
    }
    lemma_glookup_skip(fields, "free"@, 4);
    assert(fields.skip(4)[0] == fields[4]);
    assert(glookup(fields, "free"@) == Some(fields[4].1));
    assert("device"@.len() == 6);
    assert("percent"@.len() == 7);
    assert("device"@ != "percent"@);
    assert("fstype"@.len() == 6);
    assert("percent"@.len() == 7);
    assert("fstype"@ != "percent"@);
    assert("total"@.len() == 5);
    assert("percent"@.len() == 7);
    assert("total"@ != "percent"@);
    assert("used"@.len() == 4);
    assert("percent"@.len() == 7);
    assert("used"@ != "percent"@);
    assert("free"@.len() == 4);
    assert("percent"@.len() == 7);
    assert("free"@ != "percent"@);
    assert forall|i: int| 0 <= i < 5 implies (#[trigger] fields[i]).0 != "percent"@ by {
        assert(fields[0].0 == "device"@);
        assert(fields[1].0 == "fstype"@);
        assert(fields[2].0 == "total"@);
        assert(fields[3].0 == "used"@);
        assert(fields[4].0 == "free"@);
    }
    lemma_glookup_skip(fields, "percent"@, 5);
    assert(fields.skip(5)[0] == fields[5]);
    assert(glookup(fields, "percent"@) == Some(fields[5].1));
    assert forall|i: int| 0 <= i < fields.len() implies crate::json::wf(#[trigger] fields[i].1) by {
        assert(crate::json::wf(fields[0].1));
        assert(crate::json::wf(fields[1].1));
        assert(crate::json::wf(fields[2].1));
        assert(crate::json::wf(fields[3].1));
        assert(crate::json::wf(fields[4].1));
        assert(crate::json::wf(fields[5].1));
    }
}

/// The disks snapshot.
#[derive(Debug, Clone)]
pub struct WinDisksNats {
    pub agent_id: String,
    pub disks: Vec<Disk>,
}

impl Default for WinDisksNats {
    /// The empty record.
    fn default() -> (r: WinDisksNats)
        ensures
            r.agent_id@.len() == 0,
            r.disks@.len() == 0,
    {
        proof {
            reveal_strlit("");
        }
        WinDisksNats {
            agent_id: crate::text::string_of(""),
            disks: Vec::new(),
        }
    }
}

/// How a parsed object's members determine one `WinDisksNats`.
pub open spec fn win_disks_rel(fields: Seq<(Seq<char>, GJson)>, x: WinDisksNats) -> bool {
    &&& gj_str(glookup(fields, "agent_id"@)) == Some(x.agent_id@)
    &&& gj_arr(glookup(fields, "disks"@)) matches Some(elems) && disk_vec_rel(elems, x.disks)
}

/// Whether an object has every member a `WinDisksNats` needs, well typed.
pub open spec fn win_disks_ok(fields: Seq<(Seq<char>, GJson)>) -> bool {
    &&& gj_str(glookup(fields, "agent_id"@)) is Some
    &&& gj_arr(glookup(fields, "disks"@)) matches Some(elems) && disk_vec_ok(elems)
}

/// The canonical members of one `WinDisksNats`.
pub open spec fn win_disks_fields(x: WinDisksNats) -> Seq<(Seq<char>, GJson)> {
    seq![
        ("agent_id"@, GJson::Str(x.agent_id@)),
        ("disks"@, GJson::Arr(disk_vec_gj(x.disks))),
    ]
}

pub open spec fn win_disks_gj(x: WinDisksNats) -> GJson {
    GJson::Obj(win_disks_fields(x))
}

pub open spec fn win_disks_objrel(g: GJson, x: WinDisksNats) -> bool {
    g matches GJson::Obj(fields) && win_disks_rel(fields, x)
}

pub open spec fn win_disks_objok(g: GJson) -> bool {
    g matches GJson::Obj(fields) && win_disks_ok(fields)
}

pub open spec fn win_disks_vec_rel(elems: Seq<GJson>, v: Vec<WinDisksNats>) -> bool {
    elems.len() == v@.len() && (forall|i: int|
        0 <= i < elems.len() ==> win_disks_objrel(#[trigger] elems[i], v@[i]))
}

pub open spec fn win_disks_vec_ok(elems: Seq<GJson>) -> bool {
    forall|i: int| 0 <= i < elems.len() ==> win_disks_objok(#[trigger] elems[i])
}

pub open spec fn win_disks_vec_gj(v: Vec<WinDisksNats>) -> Seq<GJson> {
    Seq::new(v@.len(), |i: int| win_disks_gj(v@[i]))
}

/// Write a vector of `WinDisksNats` records as an array value.
pub fn win_disks_arr_of(v: &Vec<WinDisksNats>) -> (r: Vec<Json>)
    ensures
        jview_arr(r, 0) =~= win_disks_vec_gj(*v),
{
    let mut out: Vec<Json> = Vec::new();
    let mut i: usize = 0;
    while i < v.len()
        invariant
            0 <= i <= v@.len(),
            jview_arr(out, 0) =~= win_disks_vec_gj(*v).take(i as int),
        decreases v@.len() - i,
    {
        let ghost o0 = out;
        let item = Json::Obj(v[i].to_obj());
        let ghost ig = item;
        out.push(item);
        proof {
            lemma_jview_arr_push(o0, out, ig);
            assert(jview_arr(out, 0) =~= win_disks_vec_gj(*v).take(i + 1));
        }
        i = i + 1;
    }
    proof {
        assert(win_disks_vec_gj(*v).take(v@.len() as int) =~= win_disks_vec_gj(*v));
    }
    out
}

/// Read an array of `WinDisksNats` records.
pub fn win_disks_vec_from(arr: &Vec<Json>) -> (r: Option<Vec<WinDisksNats>>)
    ensures
        r is Some <==> win_disks_vec_ok(jview_arr(*arr, 0)),
        match r {
            Some(v) => win_disks_vec_rel(jview_arr(*arr, 0), v),
            None => true,
        },
{
    proof {
        crate::json::lemma_jview_arr(*arr, 0);
    }
    let mut out: Vec<WinDisksNats> = Vec::new();
    let mut i: usize = 0;
    while i < arr.len()
        invariant
            0 <= i <= arr@.len(),
            jview_arr(*arr, 0).len() == arr@.len(),
            forall|k: int|
                0 <= k < arr@.len() ==> #[trigger] jview_arr(*arr, 0)[k] == jview(arr@[k]),
            out@.len() == i,
            forall|k: int|
                0 <= k < i ==> win_disks_objok(#[trigger] jview_arr(*arr, 0)[k]) && win_disks_objrel(
                    jview_arr(*arr, 0)[k],
                    out@[k],
                ),
        decreases arr@.len() - i,
    {
        match &arr[i] {
            Json::Obj(o) => match WinDisksNats::from_obj(o) {
                Some(t) => { out.push(t); },
                None => {
                    proof {
                        assert(!win_disks_objok(jview_arr(*arr, 0)[i as int]));
                    }
                    return None;
                },
            },
            _ => {
                proof {
                    assert(!win_disks_objok(jview_arr(*arr, 0)[i as int]));
                }
                return None;
            },
        }
        i = i + 1;
    }
    Some(out)
}

impl WinDisksNats {
    /// Read one record from a parsed object.
    pub fn from_obj(obj: &Vec<(String, Json)>) -> (r: Option<WinDisksNats>)
        ensures
            ({
                let fields = jview_obj(*obj, 0);
                &&& (r is Some <==> win_disks_ok(fields))
                &&& (match r { Some(x) => win_disks_rel(fields, x), None => true })
            }),
    {
    let agent_id = match get_str(obj, "agent_id") { Some(v) => v, None => { return None; } };
    let arr_disks = match get_arr(obj, "disks") { Some(a) => a, None => { return None; } };
    proof {
        crate::json::lemma_jview_arr(*arr_disks, 0);
    }
    let mut disks: Vec<Disk> = Vec::new();
    let mut i_disks: usize = 0;
    while i_disks < arr_disks.len()
        invariant
            0 <= i_disks <= arr_disks@.len(),
            gj_arr(glookup(jview_obj(*obj, 0), "disks"@)) == Some(jview_arr(*arr_disks, 0)),
            jview_arr(*arr_disks, 0).len() == arr_disks@.len(),
            forall|k: int|
                0 <= k < arr_disks@.len() ==> #[trigger] jview_arr(*arr_disks, 0)[k] == jview(
                    arr_disks@[k],
                ),
            disks@.len() == i_disks,
            forall|k: int|
                0 <= k < i_disks ==> disk_objok(#[trigger] jview_arr(*arr_disks, 0)[k]) && disk_objrel(
                    jview_arr(*arr_disks, 0)[k],
                    disks@[k],
                ),
        decreases arr_disks@.len() - i_disks,
    {
        match &arr_disks[i_disks] {
            Json::Obj(o) => match Disk::from_obj(o) {
                Some(t) => { disks.push(t); },
                None => {
                    proof {
                        assert(!disk_objok(jview_arr(*arr_disks, 0)[i_disks as int]));
                    }
                    return None;
                },
            },
            _ => {
                proof {
                    assert(!disk_objok(jview_arr(*arr_disks, 0)[i_disks as int]));
                }
                return None;
            },
        }
        i_disks = i_disks + 1;
    }
    Some(WinDisksNats { agent_id, disks })
    }

    /// Write this record's members in canonical order.
    pub fn to_obj(&self) -> (r: Vec<(String, Json)>)
        ensures
            jview_obj(r, 0) =~= win_disks_fields(*self),
    {
        let mut obj: Vec<(String, Json)> = Vec::new();
        put(&mut obj, "agent_id", jstr(self.agent_id.as_str()));
        put(&mut obj, "disks", Json::Arr(disk_arr_of(&self.disks)));
        proof {
            assert(jview_obj(obj, 0) =~= win_disks_fields(*self));
        }
        obj
    }

    /// This record as a payload text.
    pub fn encode(&self) -> (r: String)
        ensures
            r@ == crate::json::spec_print(win_disks_gj(*self)),
    {
        let obj = self.to_obj();
        let ghost og = obj;
        let j = Json::Obj(obj);
        proof {
            assert(jview_obj(og, 0) =~= win_disks_fields(*self));
            assert(j@ == win_disks_gj(*self));
        }
        crate::json::json_to_string(&j)
    }

    /// Read one record from a payload text.
    pub fn decode(s: &str) -> (r: Option<WinDisksNats>)
        ensures
            match crate::json::spec_parse_json(s@) {
                Some(g) => match g {
                    GJson::Obj(fields) => (r is Some <==> win_disks_ok(fields)) && (
                    match r { Some(x) => win_disks_rel(fields, x), None => true }),
                    _ => r is None,
                },
                None => r is None,
            },
    {
        match crate::json::parse_json_str(s) {
            Some(Json::Obj(obj)) => WinDisksNats::from_obj(&obj),
            Some(_) => None,
            None => None,
        }
    }
}

/// Writing one `WinDisksNats` and reading the text back yields the same
/// record, member for member.
#[verifier::rlimit(100)]
#[verifier::spinoff_prover]
pub proof fn lemma_win_disks_round_trip(x: WinDisksNats)
    ensures
        crate::json::wf(win_disks_gj(x)),
        crate::json::spec_parse_json(crate::json::spec_print(win_disks_gj(x))) == Some(win_disks_gj(x)),
        win_disks_ok(win_disks_fields(x)),
        win_disks_rel(win_disks_fields(x), x),
{
    lemma_win_disks_canonical(x);
    crate::json::lemma_json_round_trip(win_disks_gj(x));
}

#[verifier::rlimit(100)]
#[verifier::spinoff_prover]
proof fn lemma_win_disks_canonical(x: WinDisksNats)
    ensures
        crate::json::wf(win_disks_gj(x)),
        win_disks_ok(win_disks_fields(x)),
        win_disks_rel(win_disks_fields(x), x),
        win_disks_objok(win_disks_gj(x)),
        win_disks_objrel(win_disks_gj(x), x),
{
    let fields = win_disks_fields(x);
    reveal_strlit("agent_id");
    reveal_strlit("disks");
    assert forall|k: int| 0 <= k < disk_vec_gj(x.disks).len() implies crate::json::wf(#[trigger] disk_vec_gj(x.disks)[k]) && disk_objok(disk_vec_gj(x.disks)[k]) && disk_objrel(disk_vec_gj(x.disks)[k], x.disks@[k]) by {
        lemma_disk_canonical(x.disks@[k]);
    }
    assert forall|i: int| 0 <= i < 0 implies (#[trigger] fields[i]).0 != "agent_id"@ by {
    }
    lemma_glookup_skip(fields, "agent_id"@, 0);
    assert(fields.skip(0)[0] == fields[0]);
    assert(glookup(fields, "agent_id"@) == Some(fields[0].1));
    assert("agent_id"@.len() == 8);
    assert("disks"@.len() == 5);
    assert("agent_id"@ != "disks"@);
    assert forall|i: int| 0 <= i < 1 implies (#[trigger] fields[i]).0 != "disks"@ by {
        assert(fields[0].0 == "agent_id"@);
    }
    lemma_glookup_skip(fields, "disks"@, 1);
    assert(fields.skip(1)[0] == fields[1]);
    assert(glookup(fields, "disks"@) == Some(fields[1].1));
    assert forall|i: int| 0 <= i < fields.len() implies crate::json::wf(#[trigger] fields[i].1) by {
        assert(crate::json::wf(fields[0].1));
        assert(crate::json::wf(fields[1].1));
    }
}

/// The public-address snapshot.
#[derive(Debug, Clone)]
pub struct PublicIPNats {
    pub agent_id: String,
    pub public_ip: String,
}

impl Default for PublicIPNats {
    /// The empty record.
    fn default() -> (r: PublicIPNats)
        ensures
            r.agent_id@.len() == 0,
            r.public_ip@.len() == 0,
    {
        proof {
            reveal_strlit("");
        }
        PublicIPNats {
            agent_id: crate::text::string_of(""),
            public_ip: crate::text::string_of(""),
        }
    }
}

/// How a parsed object's members determine one `PublicIPNats`.
pub open spec fn public_ip_msg_rel(fields: Seq<(Seq<char>, GJson)>, x: PublicIPNats) -> bool {
    &&& gj_str(glookup(fields, "agent_id"@)) == Some(x.agent_id@)
    &&& gj_str(glookup(fields, "public_ip"@)) == Some(x.public_ip@)
}

/// Whether an object has every member a `PublicIPNats` needs, well typed.
pub open spec fn public_ip_msg_ok(fields: Seq<(Seq<char>, GJson)>) -> bool {
    &&& gj_str(glookup(fields, "agent_id"@)) is Some
    &&& gj_str(glookup(fields, "public_ip"@)) is Some
}

/// The canonical members of one `PublicIPNats`.
pub open spec fn public_ip_msg_fields(x: PublicIPNats) -> Seq<(Seq<char>, GJson)> {
    seq![
        ("agent_id"@, GJson::Str(x.agent_id@)),
        ("public_ip"@, GJson::Str(x.public_ip@)),
    ]
}

pub open spec fn public_ip_msg_gj(x: PublicIPNats) -> GJson {
    GJson::Obj(public_ip_msg_fields(x))
}

pub open spec fn public_ip_msg_objrel(g: GJson, x: PublicIPNats) -> bool {
    g matches GJson::Obj(fields) && public_ip_msg_rel(fields, x)
}

pub open spec fn public_ip_msg_objok(g: GJson) -> bool {
    g matches GJson::Obj(fields) && public_ip_msg_ok(fields)
}

pub open spec fn public_ip_msg_vec_rel(elems: Seq<GJson>, v: Vec<PublicIPNats>) -> bool {
    elems.len() == v@.len() && (forall|i: int|
        0 <= i < elems.len() ==> public_ip_msg_objrel(#[trigger] elems[i], v@[i]))
}

pub open spec fn public_ip_msg_vec_ok(elems: Seq<GJson>) -> bool {
    forall|i: int| 0 <= i < elems.len() ==> public_ip_msg_objok(#[trigger] elems[i])
}

pub open spec fn public_ip_msg_vec_gj(v: Vec<PublicIPNats>) -> Seq<GJson> {
    Seq::new(v@.len(), |i: int| public_ip_msg_gj(v@[i]))
}

/// Write a vector of `PublicIPNats` records as an array value.
pub fn public_ip_msg_arr_of(v: &Vec<PublicIPNats>) -> (r: Vec<Json>)
    ensures
        jview_arr(r, 0) =~= public_ip_msg_vec_gj(*v),
{
    let mut out: Vec<Json> = Vec::new();
    let mut i: usize = 0;
    while i < v.len()
        invariant
            0 <= i <= v@.len(),
            jview_arr(out, 0) =~= public_ip_msg_vec_gj(*v).take(i as int),
        decreases v@.len() - i,
    {
        let ghost o0 = out;
        let item = Json::Obj(v[i].to_obj());
        let ghost ig = item;
        out.push(item);
        proof {
            lemma_jview_arr_push(o0, out, ig);
            assert(jview_arr(out, 0) =~= public_ip_msg_vec_gj(*v).take(i + 1));
        }
        i = i + 1;
    }
    proof {
        assert(public_ip_msg_vec_gj(*v).take(v@.len() as int) =~= public_ip_msg_vec_gj(*v));
    }
    out
}

/// Read an array of `PublicIPNats` records.
pub fn public_ip_msg_vec_from(arr: &Vec<Json>) -> (r: Option<Vec<PublicIPNats>>)
    ensures
        r is Some <==> public_ip_msg_vec_ok(jview_arr(*arr, 0)),
        match r {
            Some(v) => public_ip_msg_vec_rel(jview_arr(*arr, 0), v),
            None => true,
        },
{
    proof {
        crate::json::lemma_jview_arr(*arr, 0);
    }
    let mut out: Vec<PublicIPNats> = Vec::new();
    let mut i: usize = 0;
    while i < arr.len()
        invariant
            0 <= i <= arr@.len(),
            jview_arr(*arr, 0).len() == arr@.len(),
            forall|k: int|
                0 <= k < arr@.len() ==> #[trigger] jview_arr(*arr, 0)[k] == jview(arr@[k]),
            out@.len() == i,
            forall|k: int|
                0 <= k < i ==> public_ip_msg_objok(#[trigger] jview_arr(*arr, 0)[k]) && public_ip_msg_objrel(
                    jview_arr(*arr, 0)[k],
                    out@[k],
                ),
        decreases arr@.len() - i,
    {
        match &arr[i] {
            Json::Obj(o) => match PublicIPNats::from_obj(o) {
                Some(t) => { out.push(t); },
                None => {
                    proof {
                        assert(!public_ip_msg_objok(jview_arr(*arr, 0)[i as int]));
                    }
                    return None;
                },
            },
            _ => {
                proof {
                    assert(!public_ip_msg_objok(jview_arr(*arr, 0)[i as int]));
                }
                return None;
            },
        }
        i = i + 1;
    }
    Some(out)
}

impl PublicIPNats {
    /// Read one record from a parsed object.
    pub fn from_obj(obj: &Vec<(String, Json)>) -> (r: Option<PublicIPNats>)
        ensures
            ({
                let fields = jview_obj(*obj, 0);
                &&& (r is Some <==> public_ip_msg_ok(fields))
                &&& (match r { Some(x) => public_ip_msg_rel(fields, x), None => true })
            }),
    {
    let agent_id = match get_str(obj, "agent_id") { Some(v) => v, None => { return None; } };
    let public_ip = match get_str(obj, "public_ip") { Some(v) => v, None => { return None; } };
    Some(PublicIPNats { agent_id, public_ip })
    }

    /// Write this record's members in canonical order.
    pub fn to_obj(&self) -> (r: Vec<(String, Json)>)
        ensures
            jview_obj(r, 0) =~= public_ip_msg_fields(*self),
    {
        let mut obj: Vec<(String, Json)> = Vec::new();
        put(&mut obj, "agent_id", jstr(self.agent_id.as_str()));
        put(&mut obj, "public_ip", jstr(self.public_ip.as_str()));
        proof {
            assert(jview_obj(obj, 0) =~= public_ip_msg_fields(*self));
        }
        obj
    }

    /// This record as a payload text.
    pub fn encode(&self) -> (r: String)
        ensures
            r@ == crate::json::spec_print(public_ip_msg_gj(*self)),
    {
        let obj = self.to_obj();
        let ghost og = obj;
        let j = Json::Obj(obj);
        proof {
            assert(jview_obj(og, 0) =~= public_ip_msg_fields(*self));
            assert(j@ == public_ip_msg_gj(*self));
        }
        crate::json::json_to_string(&j)
    }

    /// Read one record from a payload text.
    pub fn decode(s: &str) -> (r: Option<PublicIPNats>)
        ensures
            match crate::json::spec_parse_json(s@) {
                Some(g) => match g {
                    GJson::Obj(fields) => (r is Some <==> public_ip_msg_ok(fields)) && (
                    match r { Some(x) => public_ip_msg_rel(fields, x), None => true }),
                    _ => r is None,
                },
                None => r is None,
            },
    {
        match crate::json::parse_json_str(s) {
            Some(Json::Obj(obj)) => PublicIPNats::from_obj(&obj),
            Some(_) => None,
            None => None,
        }
    }
}

/// Writing one `PublicIPNats` and reading the text back yields the same
/// record, member for member.
#[verifier::rlimit(100)]
#[verifier::spinoff_prover]
pub proof fn lemma_public_ip_msg_round_trip(x: PublicIPNats)
    ensures
        crate::json::wf(public_ip_msg_gj(x)),
        crate::json::spec_parse_json(crate::json::spec_print(public_ip_msg_gj(x))) == Some(public_ip_msg_gj(x)),
        public_ip_msg_ok(public_ip_msg_fields(x)),
        public_ip_msg_rel(public_ip_msg_fields(x), x),
{
    lemma_public_ip_msg_canonical(x);
    crate::json::lemma_json_round_trip(public_ip_msg_gj(x));
}

#[verifier::rlimit(100)]
#[verifier::spinoff_prover]
proof fn lemma_public_ip_msg_canonical(x: PublicIPNats)
    ensures
        crate::json::wf(public_ip_msg_gj(x)),
        public_ip_msg_ok(public_ip_msg_fields(x)),
        public_ip_msg_rel(public_ip_msg_fields(x), x),
        public_ip_msg_objok(public_ip_msg_gj(x)),
        public_ip_msg_objrel(public_ip_msg_gj(x), x),
{
    let fields = public_ip_msg_fields(x);
    reveal_strlit("agent_id");
    reveal_strlit("public_ip");
    assert forall|i: int| 0 <= i < 0 implies (#[trigger] fields[i]).0 != "agent_id"@ by {
    }
    lemma_glookup_skip(fields, "agent_id"@, 0);
    assert(fields.skip(0)[0] == fields[0]);
    assert(glookup(fields, "agent_id"@) == Some(fields[0].1));
    assert("agent_id"@.len() == 8);
    assert("public_ip"@.len() == 9);
    assert("agent_id"@ != "public_ip"@);
    assert forall|i: int| 0 <= i < 1 implies (#[trigger] fields[i]).0 != "public_ip"@ by {
        assert(fields[0].0 == "agent_id"@);
    }
    lemma_glookup_skip(fields, "public_ip"@, 1);
    assert(fields.skip(1)[0] == fields[1]);
    assert(glookup(fields, "public_ip"@) == Some(fields[1].1));
    assert forall|i: int| 0 <= i < fields.len() implies crate::json::wf(#[trigger] fields[i].1) by {
        assert(crate::json::wf(fields[0].1));
        assert(crate::json::wf(fields[1].1));
    }
}

/// One installed-software record.
#[derive(Debug, Clone)]
pub struct WinSoftwareList {
    pub name: String,
    pub version: String,
    pub publisher: String,
    pub install_date: String,
    pub size: String,
    pub source: String,
    pub location: String,
    pub uninstall: String,
}

impl Default for WinSoftwareList {
    /// The empty record.
    fn default() -> (r: WinSoftwareList)
        ensures
            r.name@.len() == 0,
            r.version@.len() == 0,
            r.publisher@.len() == 0,
            r.install_date@.len() == 0,
            r.size@.len() == 0,
            r.source@.len() == 0,
            r.location@.len() == 0,
            r.uninstall@.len() == 0,
    {
        proof {
            reveal_strlit("");
        }
        WinSoftwareList {
            name: crate::text::string_of(""),
            version: crate::text::string_of(""),
            publisher: crate::text::string_of(""),
            install_date: crate::text::string_of(""),
            size: crate::text::string_of(""),
            source: crate::text::string_of(""),
            location: crate::text::string_of(""),
            uninstall: crate::text::string_of(""),
        }
    }
}

/// How a parsed object's members determine one `WinSoftwareList`.
pub open spec fn win_software_rel(fields: Seq<(Seq<char>, GJson)>, x: WinSoftwareList) -> bool {
    &&& gj_str(glookup(fields, "name"@)) == Some(x.name@)
    &&& gj_str(glookup(fields, "version"@)) == Some(x.version@)
    &&& gj_str(glookup(fields, "publisher"@)) == Some(x.publisher@)
    &&& gj_str(glookup(fields, "install_date"@)) == Some(x.install_date@)
    &&& gj_str(glookup(fields, "size"@)) == Some(x.size@)
    &&& gj_str(glookup(fields, "source"@)) == Some(x.source@)
    &&& gj_str(glookup(fields, "location"@)) == Some(x.location@)
    &&& gj_str(glookup(fields, "uninstall"@)) == Some(x.uninstall@)
}

/// Whether an object has every member a `WinSoftwareList` needs, well typed.
pub open spec fn win_software_ok(fields: Seq<(Seq<char>, GJson)>) -> bool {
    &&& gj_str(glookup(fields, "name"@)) is Some
    &&& gj_str(glookup(fields, "version"@)) is Some
    &&& gj_str(glookup(fields, "publisher"@)) is Some
    &&& gj_str(glookup(fields, "install_date"@)) is Some
    &&& gj_str(glookup(fields, "size"@)) is Some
    &&& gj_str(glookup(fields, "source"@)) is Some
    &&& gj_str(glookup(fields, "location"@)) is Some
    &&& gj_str(glookup(fields, "uninstall"@)) is Some
}

/// The canonical members of one `WinSoftwareList`.
pub open spec fn win_software_fields(x: WinSoftwareList) -> Seq<(Seq<char>, GJson)> {
    seq![
        ("name"@, GJson::Str(x.name@)),
        ("version"@, GJson::Str(x.version@)),
        ("publisher"@, GJson::Str(x.publisher@)),
        ("install_date"@, GJson::Str(x.install_date@)),
        ("size"@, GJson::Str(x.size@)),
        ("source"@, GJson::Str(x.source@)),
        ("location"@, GJson::Str(x.location@)),
        ("uninstall"@, GJson::Str(x.uninstall@)),
    ]
}

pub open spec fn win_software_gj(x: WinSoftwareList) -> GJson {
    GJson::Obj(win_software_fields(x))
}

pub open spec fn win_software_objrel(g: GJson, x: WinSoftwareList) -> bool {
    g matches GJson::Obj(fields) && win_software_rel(fields, x)
}

pub open spec fn win_software_objok(g: GJson) -> bool {
    g matches GJson::Obj(fields) && win_software_ok(fields)
}

pub open spec fn win_software_vec_rel(elems: Seq<GJson>, v: Vec<WinSoftwareList>) -> bool {
    elems.len() == v@.len() && (forall|i: int|
        0 <= i < elems.len() ==> win_software_objrel(#[trigger] elems[i], v@[i]))
}

pub open spec fn win_software_vec_ok(elems: Seq<GJson>) -> bool {
    forall|i: int| 0 <= i < elems.len() ==> win_software_objok(#[trigger] elems[i])
}

pub open spec fn win_software_vec_gj(v: Vec<WinSoftwareList>) -> Seq<GJson> {
    Seq::new(v@.len(), |i: int| win_software_gj(v@[i]))
}

/// Write a vector of `WinSoftwareList` records as an array value.
pub fn win_software_arr_of(v: &Vec<WinSoftwareList>) -> (r: Vec<Json>)
    ensures
        jview_arr(r, 0) =~= win_software_vec_gj(*v),
{
    let mut out: Vec<Json> = Vec::new();
    let mut i: usize = 0;
    while i < v.len()
        invariant
            0 <= i <= v@.len(),
            jview_arr(out, 0) =~= win_software_vec_gj(*v).take(i as int),
        decreases v@.len() - i,
    {
        let ghost o0 = out;
        let item = Json::Obj(v[i].to_obj());
        let ghost ig = item;
        out.push(item);
        proof {
            lemma_jview_arr_push(o0, out, ig);
            assert(jview_arr(out, 0) =~= win_software_vec_gj(*v).take(i + 1));
        }
        i = i + 1;
    }
    proof {
        assert(win_software_vec_gj(*v).take(v@.len() as int) =~= win_software_vec_gj(*v));
    }
    out
}

/// Read an array of `WinSoftwareList` records.
pub fn win_software_vec_from(arr: &Vec<Json>) -> (r: Option<Vec<WinSoftwareList>>)
    ensures
        r is Some <==> win_software_vec_ok(jview_arr(*arr, 0)),
        match r {
            Some(v) => win_software_vec_rel(jview_arr(*arr, 0), v),
            None => true,
        },
{
    proof {
        crate::json::lemma_jview_arr(*arr, 0);
    }
    let mut out: Vec<WinSoftwareList> = Vec::new();
    let mut i: usize = 0;
    while i < arr.len()
        invariant
            0 <= i <= arr@.len(),
            jview_arr(*arr, 0).len() == arr@.len(),
            forall|k: int|
                0 <= k < arr@.len() ==> #[trigger] jview_arr(*arr, 0)[k] == jview(arr@[k]),
            out@.len() == i,
            forall|k: int|
                0 <= k < i ==> win_software_objok(#[trigger] jview_arr(*arr, 0)[k]) && win_software_objrel(
                    jview_arr(*arr, 0)[k],
                    out@[k],
                ),
        decreases arr@.len() - i,
    {
        match &arr[i] {
            Json::Obj(o) => match WinSoftwareList::from_obj(o) {
                Some(t) => { out.push(t); },
                None => {
                    proof {
                        assert(!win_software_objok(jview_arr(*arr, 0)[i as int]));
                    }
                    return None;
                },
            },
            _ => {
                proof {
                    assert(!win_software_objok(jview_arr(*arr, 0)[i as int]));
                }
                return None;
            },
        }
        i = i + 1;
    }
    Some(out)
}

impl WinSoftwareList {
    /// Read one record from a parsed object.
    pub fn from_obj(obj: &Vec<(String, Json)>) -> (r: Option<WinSoftwareList>)
        ensures
            ({
                let fields = jview_obj(*obj, 0);
                &&& (r is Some <==> win_software_ok(fields))
                &&& (match r { Some(x) => win_software_rel(fields, x), None => true })
            }),
    {
    let name = match get_str(obj, "name") { Some(v) => v, None => { return None; } };
    let version = match get_str(obj, "version") { Some(v) => v, None => { return None; } };
    let publisher = match get_str(obj, "publisher") { Some(v) => v, None => { return None; } };
    let install_date = match get_str(obj, "install_date") { Some(v) => v, None => { return None; } };
    let size = match get_str(obj, "size") { Some(v) => v, None => { return None; } };
    let source = match get_str(obj, "source") { Some(v) => v, None => { return None; } };
    let location = match get_str(obj, "location") { Some(v) => v, None => { return None; } };
    let uninstall = match get_str(obj, "uninstall") { Some(v) => v, None => { return None; } };
    Some(WinSoftwareList { name, version, publisher, install_date, size, source, location, uninstall })
    }

    /// Write this record's members in canonical order.
    pub fn to_obj(&self) -> (r: Vec<(String, Json)>)
        ensures
            jview_obj(r, 0) =~= win_software_fields(*self),
    {
        let mut obj: Vec<(String, Json)> = Vec::new();
        put(&mut obj, "name", jstr(self.name.as_str()));
        put(&mut obj, "version", jstr(self.version.as_str()));
        put(&mut obj, "publisher", jstr(self.publisher.as_str()));
        put(&mut obj, "install_date", jstr(self.install_date.as_str()));
        put(&mut obj, "size", jstr(self.size.as_str()));
        put(&mut obj, "source", jstr(self.source.as_str()));
        put(&mut obj, "location", jstr(self.location.as_str()));
        put(&mut obj, "uninstall", jstr(self.uninstall.as_str()));
        proof {
            assert(jview_obj(obj, 0) =~= win_software_fields(*self));
        }
        obj
    }

    /// This record as a payload text.
    pub fn encode(&self) -> (r: String)
        ensures
            r@ == crate::json::spec_print(win_software_gj(*self)),
    {
        let obj = self.to_obj();
        let ghost og = obj;
        let j = Json::Obj(obj);
        proof {
            assert(jview_obj(og, 0) =~= win_software_fields(*self));
            assert(j@ == win_software_gj(*self));
        }
        crate::json::json_to_string(&j)
    }

    /// Read one record from a payload text.
    pub fn decode(s: &str) -> (r: Option<WinSoftwareList>)
        ensures
            match crate::json::spec_parse_json(s@) {
                Some(g) => match g {
                    GJson::Obj(fields) => (r is Some <==> win_software_ok(fields)) && (
                    match r { Some(x) => win_software_rel(fields, x), None => true }),
                    _ => r is None,
                },
                None => r is None,
            },
    {
        match crate::json::parse_json_str(s) {
            Some(Json::Obj(obj)) => WinSoftwareList::from_obj(&obj),
            Some(_) => None,
            None => None,
        }
    }
}

/// Writing one `WinSoftwareList` and reading the text back yields the same
/// record, member for member.
#[verifier::rlimit(100)]
#[verifier::spinoff_prover]
pub proof fn lemma_win_software_round_trip(x: WinSoftwareList)
    ensures
        crate::json::wf(win_software_gj(x)),
        crate::json::spec_parse_json(crate::json::spec_print(win_software_gj(x))) == Some(win_software_gj(x)),
        win_software_ok(win_software_fields(x)),
        win_software_rel(win_software_fields(x), x),
{
    lemma_win_software_canonical(x);
    crate::json::lemma_json_round_trip(win_software_gj(x));
}

#[verifier::rlimit(100)]
#[verifier::spinoff_prover]
proof fn lemma_win_software_canonical(x: WinSoftwareList)
    ensures
        crate::json::wf(win_software_gj(x)),
        win_software_ok(win_software_fields(x)),
        win_software_rel(win_software_fields(x), x),
        win_software_objok(win_software_gj(x)),
        win_software_objrel(win_software_gj(x), x),
{
    let fields = win_software_fields(x);
    reveal_strlit("name");
    reveal_strlit("version");
    reveal_strlit("publisher");
    reveal_strlit("install_date");
    reveal_strlit("size");
    reveal_strlit("source");
    reveal_strlit("location");
    reveal_strlit("uninstall");
    assert forall|i: int| 0 <= i < 0 implies (#[trigger] fields[i]).0 != "name"@ by {
    }
    lemma_glookup_skip(fields, "name"@, 0);
    assert(fields.skip(0)[0] == fields[0]);
    assert(glookup(fields, "name"@) == Some(fields[0].1));
    assert("name"@.len() == 4);
    assert("version"@.len() == 7);
    assert("name"@ != "version"@);
    assert forall|i: int| 0 <= i < 1 implies (#[trigger] fields[i]).0 != "version"@ by {
        assert(fields[0].0 == "name"@);
    }
    lemma_glookup_skip(fields, "version"@, 1);
    assert(fields.skip(1)[0] == fields[1]);
    assert(glookup(fields, "version"@) == Some(fields[1].1));
    assert("name"@.len() == 4);
    assert("publisher"@.len() == 9);
    assert("name"@ != "publisher"@);
    assert("version"@.len() == 7);
    assert("publisher"@.len() == 9);
    assert("version"@ != "publisher"@);
    assert forall|i: int| 0 <= i < 2 implies (#[trigger] fields[i]).0 != "publisher"@ by {
        assert(fields[0].0 == "name"@);
        assert(fields[1].0 == "version"@);
    }
    lemma_glookup_skip(fields, "publisher"@, 2);
    assert(fields.skip(2)[0] == fields[2]);
    assert(glookup(fields, "publisher"@) == Some(fields[2].1));
    assert("name"@.len() == 4);
    assert("install_date"@.len() == 12);
    assert("name"@ != "install_date"@);
    assert("version"@.len() == 7);
    assert("install_date"@.len() == 12);
    assert("version"@ != "install_date"@);
    assert("publisher"@.len() == 9);
    assert("install_date"@.len() == 12);
    assert("publisher"@ != "install_date"@);
    assert forall|i: int| 0 <= i < 3 implies (#[trigger] fields[i]).0 != "install_date"@ by {
        assert(fields[0].0 == "name"@);
        assert(fields[1].0 == "version"@);
        assert(fields[2].0 == "publisher"@);
    }
    lemma_glookup_skip(fields, "install_date"@, 3);
    assert(fields.skip(3)[0] == fields[3]);
    assert(glookup(fields, "install_date"@) == Some(fields[3].1));
    assert("name"@[0] == 'n');
    assert("size"@[0] == 's');
    assert("name"@ != "size"@);
    assert("version"@.len() == 7);
    assert("size"@.len() == 4);
    assert("version"@ != "size"@);
    assert("publisher"@.len() == 9);
    assert("size"@.len() == 4);
    assert("publisher"@ != "size"@);
    assert("install_date"@.len() == 12);
    assert("size"@.len() == 4);
    assert("install_date"@ != "size"@);
    assert forall|i: int| 0 <= i < 4 implies (#[trigger] fields[i]).0 != "size"@ by {
        assert(fields[0].0 == "name"@);
        assert(fields[1].0 == "version"@);
        assert(fields[2].0 == "publisher"@);
        assert(fields[3].0 == "install_date"@);
    }
    lemma_glookup_skip(fields, "size"@, 4);
    assert(fields.skip(4)[0] == fields[4]);
    assert(glookup(fields, "size"@) == Some(fields[4].1));
    assert("name"@.len() == 4);
    assert("source"@.len() == 6);
    assert("name"@ != "source"@);
    assert("version"@.len() == 7);
    assert("source"@.len() == 6);
    assert("version"@ != "source"@);
    assert("publisher"@.len() == 9);
    assert("source"@.len() == 6);
    assert("publisher"@ != "source"@);
    assert("install_date"@.len() == 12);
    assert("source"@.len() == 6);
    assert("install_date"@ != "source"@);
    assert("size"@.len() == 4);
    assert("source"@.len() == 6);
    assert("size"@ != "source"@);
    assert forall|i: int| 0 <= i < 5 implies (#[trigger] fields[i]).0 != "source"@ by {
        assert(fields[0].0 == "name"@);
        assert(fields[1].0 == "version"@);
        assert(fields[2].0 == "publisher"@);
        assert(fields[3].0 == "install_date"@);
        assert(fields[4].0 == "size"@);
    }
    lemma_glookup_skip(fields, "source"@, 5);
    assert(fields.skip(5)[0] == fields[5]);
    assert(glookup(fields, "source"@) == Some(fields[5].1));
    assert("name"@.len() == 4);
    assert("location"@.len() == 8);
    assert("name"@ != "location"@);
    assert("version"@.len() == 7);
    assert("location"@.len() == 8);
    assert("version"@ != "location"@);
    assert("publisher"@.len() == 9);
    assert("location"@.len() == 8);
    assert("publisher"@ != "location"@);
    assert("install_date"@.len() == 12);
    assert("location"@.len() == 8);
    assert("install_date"@ != "location"@);
    assert("size"@.len() == 4);
    assert("location"@.len() == 8);
    assert("size"@ != "location"@);
    assert("source"@.len() == 6);
    assert("location"@.len() == 8);
    assert("source"@ != "location"@);
    assert forall|i: int| 0 <= i < 6 implies (#[trigger] fields[i]).0 != "location"@ by {
        assert(fields[0].0 == "name"@);
        assert(fields[1].0 == "version"@);
        assert(fields[2].0 == "publisher"@);
        assert(fields[3].0 == "install_date"@);
        assert(fields[4].0 == "size"@);
        assert(fields[5].0 == "source"@);
    }
    lemma_glookup_skip(fields, "location"@, 6);
    assert(fields.skip(6)[0] == fields[6]);
    assert(glookup(fields, "location"@) == Some(fields[6].1));
    assert("name"@.len() == 4);
    assert("uninstall"@.len() == 9);
    assert("name"@ != "uninstall"@);
    assert("version"@.len() == 7);
    assert("uninstall"@.len() == 9);
    assert("version"@ != "uninstall"@);
    assert("publisher"@[0] == 'p');
    assert("uninstall"@[0] == 'u');
    assert("publisher"@ != "uninstall"@);
    assert("install_date"@.len() == 12);
    assert("uninstall"@.len() == 9);
    assert("install_date"@ != "uninstall"@);
    assert("size"@.len() == 4);
    assert("uninstall"@.len() == 9);
    assert("size"@ != "uninstall"@);
    assert("source"@.len() == 6);
    assert("uninstall"@.len() == 9);
    assert("source"@ != "uninstall"@);
    assert("location"@.len() == 8);
    assert("uninstall"@.len() == 9);
    assert("location"@ != "uninstall"@);
    assert forall|i: int| 0 <= i < 7 implies (#[trigger] fields[i]).0 != "uninstall"@ by {
        assert(fields[0].0 == "name"@);
        assert(fields[1].0 == "version"@);
        assert(fields[2].0 == "publisher"@);
        assert(fields[3].0 == "install_date"@);
        assert(fields[4].0 == "size"@);
        assert(fields[5].0 == "source"@);
        assert(fields[6].0 == "location"@);
    }
    lemma_glookup_skip(fields, "uninstall"@, 7);
    assert(fields.skip(7)[0] == fields[7]);
    assert(glookup(fields, "uninstall"@) == Some(fields[7].1));
    assert forall|i: int| 0 <= i < fields.len() implies crate::json::wf(#[trigger] fields[i].1) by {
        assert(crate::json::wf(fields[0].1));
        assert(crate::json::wf(fields[1].1));
        assert(crate::json::wf(fields[2].1));
        assert(crate::json::wf(fields[3].1));
        assert(crate::json::wf(fields[4].1));
        assert(crate::json::wf(fields[5].1));
        assert(crate::json::wf(fields[6].1));
        assert(crate::json::wf(fields[7].1));
    }
}

/// The installed-software snapshot.
#[derive(Debug, Clone)]
pub struct WinSoftwareNats {
    pub agent_id: String,
    pub software: Vec<WinSoftwareList>,
}

impl Default for WinSoftwareNats {
    /// The empty record.
    fn default() -> (r: WinSoftwareNats)
        ensures
            r.agent_id@.len() == 0,
            r.software@.len() == 0,
    {
        proof {
            reveal_strlit("");
        }
        WinSoftwareNats {
            agent_id: crate::text::string_of(""),
            software: Vec::new(),
        }
    }
}

/// How a parsed object's members determine one `WinSoftwareNats`.
pub open spec fn win_software_list_rel(fields: Seq<(Seq<char>, GJson)>, x: WinSoftwareNats) -> bool {
    &&& gj_str(glookup(fields, "agent_id"@)) == Some(x.agent_id@)
    &&& gj_arr(glookup(fields, "software"@)) matches Some(elems) && win_software_vec_rel(elems, x.software)
}

/// Whether an object has every member a `WinSoftwareNats` needs, well typed.
pub open spec fn win_software_list_ok(fields: Seq<(Seq<char>, GJson)>) -> bool {
    &&& gj_str(glookup(fields, "agent_id"@)) is Some
    &&& gj_arr(glookup(fields, "software"@)) matches Some(elems) && win_software_vec_ok(elems)
}

/// The canonical members of one `WinSoftwareNats`.
pub open spec fn win_software_list_fields(x: WinSoftwareNats) -> Seq<(Seq<char>, GJson)> {
    seq![
        ("agent_id"@, GJson::Str(x.agent_id@)),
        ("software"@, GJson::Arr(win_software_vec_gj(x.software))),
    ]
}

pub open spec fn win_software_list_gj(x: WinSoftwareNats) -> GJson {
    GJson::Obj(win_software_list_fields(x))
}

pub open spec fn win_software_list_objrel(g: GJson, x: WinSoftwareNats) -> bool {
    g matches GJson::Obj(fields) && win_software_list_rel(fields, x)
}

pub open spec fn win_software_list_objok(g: GJson) -> bool {
    g matches GJson::Obj(fields) && win_software_list_ok(fields)
}

pub open spec fn win_software_list_vec_rel(elems: Seq<GJson>, v: Vec<WinSoftwareNats>) -> bool {
    elems.len() == v@.len() && (forall|i: int|
        0 <= i < elems.len() ==> win_software_list_objrel(#[trigger] elems[i], v@[i]))
}

pub open spec fn win_software_list_vec_ok(elems: Seq<GJson>) -> bool {
    forall|i: int| 0 <= i < elems.len() ==> win_software_list_objok(#[trigger] elems[i])
}

pub open spec fn win_software_list_vec_gj(v: Vec<WinSoftwareNats>) -> Seq<GJson> {
    Seq::new(v@.len(), |i: int| win_software_list_gj(v@[i]))
}

/// Write a vector of `WinSoftwareNats` records as an array value.
pub fn win_software_list_arr_of(v: &Vec<WinSoftwareNats>) -> (r: Vec<Json>)
    ensures
        jview_arr(r, 0) =~= win_software_list_vec_gj(*v),
{
    let mut out: Vec<Json> = Vec::new();
    let mut i: usize = 0;
    while i < v.len()
        invariant
            0 <= i <= v@.len(),
            jview_arr(out, 0) =~= win_software_list_vec_gj(*v).take(i as int),
        decreases v@.len() - i,
    {
        let ghost o0 = out;
        let item = Json::Obj(v[i].to_obj());
        let ghost ig = item;
        out.push(item);
        proof {
            lemma_jview_arr_push(o0, out, ig);
            assert(jview_arr(out, 0) =~= win_software_list_vec_gj(*v).take(i + 1));
        }
        i = i + 1;
    }
    proof {
        assert(win_software_list_vec_gj(*v).take(v@.len() as int) =~= win_software_list_vec_gj(*v));
    }
    out
}

/// Read an array of `WinSoftwareNats` records.
pub fn win_software_list_vec_from(arr: &Vec<Json>) -> (r: Option<Vec<WinSoftwareNats>>)
    ensures
        r is Some <==> win_software_list_vec_ok(jview_arr(*arr, 0)),
        match r {
            Some(v) => win_software_list_vec_rel(jview_arr(*arr, 0), v),
            None => true,
        },
{
    proof {
        crate::json::lemma_jview_arr(*arr, 0);
    }
    let mut out: Vec<WinSoftwareNats> = Vec::new();
    let mut i: usize = 0;
    while i < arr.len()
        invariant
            0 <= i <= arr@.len(),
            jview_arr(*arr, 0).len() == arr@.len(),
            forall|k: int|
                0 <= k < arr@.len() ==> #[trigger] jview_arr(*arr, 0)[k] == jview(arr@[k]),
            out@.len() == i,
            forall|k: int|
                0 <= k < i ==> win_software_list_objok(#[trigger] jview_arr(*arr, 0)[k]) && win_software_list_objrel(
                    jview_arr(*arr, 0)[k],
                    out@[k],
                ),
        decreases arr@.len() - i,
    {
        match &arr[i] {
            Json::Obj(o) => match WinSoftwareNats::from_obj(o) {
                Some(t) => { out.push(t); },
                None => {
                    proof {
                        assert(!win_software_list_objok(jview_arr(*arr, 0)[i as int]));
                    }
                    return None;
                },
            },
            _ => {
                proof {
                    assert(!win_software_list_objok(jview_arr(*arr, 0)[i as int]));
                }
                return None;
            },
        }
        i = i + 1;
    }
    Some(out)
}

impl WinSoftwareNats {
    /// Read one record from a parsed object.
    pub fn from_obj(obj: &Vec<(String, Json)>) -> (r: Option<WinSoftwareNats>)
        ensures
            ({
                let fields = jview_obj(*obj, 0);
                &&& (r is Some <==> win_software_list_ok(fields))
                &&& (match r { Some(x) => win_software_list_rel(fields, x), None => true })
            }),
    {
    let agent_id = match get_str(obj, "agent_id") { Some(v) => v, None => { return None; } };
    let arr_software = match get_arr(obj, "software") { Some(a) => a, None => { return None; } };
    proof {
        crate::json::lemma_jview_arr(*arr_software, 0);
    }
    let mut software: Vec<WinSoftwareList> = Vec::new();
    let mut i_software: usize = 0;
    while i_software < arr_software.len()
        invariant
            0 <= i_software <= arr_software@.len(),
            gj_arr(glookup(jview_obj(*obj, 0), "software"@)) == Some(jview_arr(*arr_software, 0)),
            jview_arr(*arr_software, 0).len() == arr_software@.len(),
            forall|k: int|
                0 <= k < arr_software@.len() ==> #[trigger] jview_arr(*arr_software, 0)[k] == jview(
                    arr_software@[k],
                ),
            software@.len() == i_software,
            forall|k: int|
                0 <= k < i_software ==> win_software_objok(#[trigger] jview_arr(*arr_software, 0)[k]) && win_software_objrel(
                    jview_arr(*arr_software, 0)[k],
                    software@[k],
                ),
        decreases arr_software@.len() - i_software,
    {
        match &arr_software[i_software] {
            Json::Obj(o) => match WinSoftwareList::from_obj(o) {
                Some(t) => { software.push(t); },
                None => {
                    proof {
                        assert(!win_software_objok(jview_arr(*arr_software, 0)[i_software as int]));
                    }
                    return None;
                },
            },
            _ => {
                proof {
                    assert(!win_software_objok(jview_arr(*arr_software, 0)[i_software as int]));
                }
                return None;
            },
        }
        i_software = i_software + 1;
    }
    Some(WinSoftwareNats { agent_id, software })
    }

    /// Write this record's members in canonical order.
    pub fn to_obj(&self) -> (r: Vec<(String, Json)>)
        ensures
            jview_obj(r, 0) =~= win_software_list_fields(*self),
    {
        let mut obj: Vec<(String, Json)> = Vec::new();
        put(&mut obj, "agent_id", jstr(self.agent_id.as_str()));
        put(&mut obj, "software", Json::Arr(win_software_arr_of(&self.software)));
        proof {
            assert(jview_obj(obj, 0) =~= win_software_list_fields(*self));
        }
        obj
    }

    /// This record as a payload text.
    pub fn encode(&self) -> (r: String)
        ensures
            r@ == crate::json::spec_print(win_software_list_gj(*self)),
    {
        let obj = self.to_obj();
        let ghost og = obj;
        let j = Json::Obj(obj);
        proof {
            assert(jview_obj(og, 0) =~= win_software_list_fields(*self));
            assert(j@ == win_software_list_gj(*self));
        }
        crate::json::json_to_string(&j)
    }

    /// Read one record from a payload text.
    pub fn decode(s: &str) -> (r: Option<WinSoftwareNats>)
        ensures
            match crate::json::spec_parse_json(s@) {
                Some(g) => match g {
                    GJson::Obj(fields) => (r is Some <==> win_software_list_ok(fields)) && (
                    match r { Some(x) => win_software_list_rel(fields, x), None => true }),
                    _ => r is None,
                },
                None => r is None,
            },
    {
        match crate::json::parse_json_str(s) {
            Some(Json::Obj(obj)) => WinSoftwareNats::from_obj(&obj),
            Some(_) => None,
            None => None,
        }
    }
}

/// Writing one `WinSoftwareNats` and reading the text back yields the same
/// record, member for member.
#[verifier::rlimit(100)]
#[verifier::spinoff_prover]
pub proof fn lemma_win_software_list_round_trip(x: WinSoftwareNats)
    ensures
        crate::json::wf(win_software_list_gj(x)),
        crate::json::spec_parse_json(crate::json::spec_print(win_software_list_gj(x))) == Some(win_software_list_gj(x)),
        win_software_list_ok(win_software_list_fields(x)),
        win_software_list_rel(win_software_list_fields(x), x),
{
    lemma_win_software_list_canonical(x);
    crate::json::lemma_json_round_trip(win_software_list_gj(x));
}

#[verifier::rlimit(100)]
#[verifier::spinoff_prover]
proof fn lemma_win_software_list_canonical(x: WinSoftwareNats)
    ensures
        crate::json::wf(win_software_list_gj(x)),
        win_software_list_ok(win_software_list_fields(x)),
        win_software_list_rel(win_software_list_fields(x), x),
        win_software_list_objok(win_software_list_gj(x)),
        win_software_list_objrel(win_software_list_gj(x), x),
{
    let fields = win_software_list_fields(x);
    reveal_strlit("agent_id");
    reveal_strlit("software");
    assert forall|k: int| 0 <= k < win_software_vec_gj(x.software).len() implies crate::json::wf(#[trigger] win_software_vec_gj(x.software)[k]) && win_software_objok(win_software_vec_gj(x.software)[k]) && win_software_objrel(win_software_vec_gj(x.software)[k], x.software@[k]) by {
        lemma_win_software_canonical(x.software@[k]);
    }
    assert forall|i: int| 0 <= i < 0 implies (#[trigger] fields[i]).0 != "agent_id"@ by {
    }
    lemma_glookup_skip(fields, "agent_id"@, 0);
    assert(fields.skip(0)[0] == fields[0]);
    assert(glookup(fields, "agent_id"@) == Some(fields[0].1));
    assert("agent_id"@[0] == 'a');
    assert("software"@[0] == 's');
    assert("agent_id"@ != "software"@);
    assert forall|i: int| 0 <= i < 1 implies (#[trigger] fields[i]).0 != "software"@ by {
        assert(fields[0].0 == "agent_id"@);
    }
    lemma_glookup_skip(fields, "software"@, 1);
    assert(fields.skip(1)[0] == fields[1]);
    assert(glookup(fields, "software"@) == Some(fields[1].1));
    assert forall|i: int| 0 <= i < fields.len() implies crate::json::wf(#[trigger] fields[i].1) by {
        assert(crate::json::wf(fields[0].1));
        assert(crate::json::wf(fields[1].1));
    }
}

/// One running process.
#[derive(Debug, Clone)]
pub struct ProcessMsg {
    pub name: String,
    pub pid: u32,
    pub membytes: u64,
    pub username: String,
    pub id: String,
    pub cpu_percent: String,
}

impl Default for ProcessMsg {
    /// The empty record.
    fn default() -> (r: ProcessMsg)
        ensures
            r.name@.len() == 0,
            r.pid == 0,
            r.membytes == 0,
            r.username@.len() == 0,
            r.id@.len() == 0,
            r.cpu_percent@.len() == 0,
    {
        proof {
            reveal_strlit("");
        }
        ProcessMsg {
            name: crate::text::string_of(""),
            pid: 0,
            membytes: 0,
            username: crate::text::string_of(""),
            id: crate::text::string_of(""),
            cpu_percent: crate::text::string_of(""),
        }
    }
}

/// How a parsed object's members determine one `ProcessMsg`.
pub open spec fn process_msg_rel(fields: Seq<(Seq<char>, GJson)>, x: ProcessMsg) -> bool {
    &&& gj_str(glookup(fields, "name"@)) == Some(x.name@)
    &&& gj_u32(glookup(fields, "pid"@)) == Some(x.pid)
    &&& gj_u64(glookup(fields, "membytes"@)) == Some(x.membytes)
    &&& gj_str(glookup(fields, "username"@)) == Some(x.username@)
    &&& gj_str(glookup(fields, "id"@)) == Some(x.id@)
    &&& gj_str(glookup(fields, "cpu_percent"@)) == Some(x.cpu_percent@)
}

/// Whether an object has every member a `ProcessMsg` needs, well typed.
pub open spec fn process_msg_ok(fields: Seq<(Seq<char>, GJson)>) -> bool {
    &&& gj_str(glookup(fields, "name"@)) is Some
    &&& gj_u32(glookup(fields, "pid"@)) is Some
    &&& gj_u64(glookup(fields, "membytes"@)) is Some
    &&& gj_str(glookup(fields, "username"@)) is Some
    &&& gj_str(glookup(fields, "id"@)) is Some
    &&& gj_str(glookup(fields, "cpu_percent"@)) is Some
}

/// The canonical members of one `ProcessMsg`.
pub open spec fn process_msg_fields(x: ProcessMsg) -> Seq<(Seq<char>, GJson)> {
    seq![
        ("name"@, GJson::Str(x.name@)),
        ("pid"@, GJson::Num(dec_digits(x.pid as nat))),
        ("membytes"@, GJson::Num(dec_digits(x.membytes as nat))),
        ("username"@, GJson::Str(x.username@)),
        ("id"@, GJson::Str(x.id@)),
        ("cpu_percent"@, GJson::Str(x.cpu_percent@)),
    ]
}

pub open spec fn process_msg_gj(x: ProcessMsg) -> GJson {
    GJson::Obj(process_msg_fields(x))
}

pub open spec fn process_msg_objrel(g: GJson, x: ProcessMsg) -> bool {
    g matches GJson::Obj(fields) && process_msg_rel(fields, x)
}

pub open spec fn process_msg_objok(g: GJson) -> bool {
    g matches GJson::Obj(fields) && process_msg_ok(fields)
}

pub open spec fn process_msg_vec_rel(elems: Seq<GJson>, v: Vec<ProcessMsg>) -> bool {
    elems.len() == v@.len() && (forall|i: int|
        0 <= i < elems.len() ==> process_msg_objrel(#[trigger] elems[i], v@[i]))
}

pub open spec fn process_msg_vec_ok(elems: Seq<GJson>) -> bool {
    forall|i: int| 0 <= i < elems.len() ==> process_msg_objok(#[trigger] elems[i])
}

pub open spec fn process_msg_vec_gj(v: Vec<ProcessMsg>) -> Seq<GJson> {
    Seq::new(v@.len(), |i: int| process_msg_gj(v@[i]))
}

/// Write a vector of `ProcessMsg` records as an array value.
pub fn process_msg_arr_of(v: &Vec<ProcessMsg>) -> (r: Vec<Json>)
    ensures
        jview_arr(r, 0) =~= process_msg_vec_gj(*v),
{
    let mut out: Vec<Json> = Vec::new();
    let mut i: usize = 0;
    while i < v.len()
        invariant
            0 <= i <= v@.len(),
            jview_arr(out, 0) =~= process_msg_vec_gj(*v).take(i as int),
        decreases v@.len() - i,
    {
        let ghost o0 = out;
        let item = Json::Obj(v[i].to_obj());
        let ghost ig = item;
        out.push(item);
        proof {
            lemma_jview_arr_push(o0, out, ig);
            assert(jview_arr(out, 0) =~= process_msg_vec_gj(*v).take(i + 1));
        }
        i = i + 1;
    }
    proof {
        assert(process_msg_vec_gj(*v).take(v@.len() as int) =~= process_msg_vec_gj(*v));
    }
    out
}

/// Read an array of `ProcessMsg` records.
pub fn process_msg_vec_from(arr: &Vec<Json>) -> (r: Option<Vec<ProcessMsg>>)
    ensures
        r is Some <==> process_msg_vec_ok(jview_arr(*arr, 0)),
        match r {
            Some(v) => process_msg_vec_rel(jview_arr(*arr, 0), v),
            None => true,
        },
{
    proof {
        crate::json::lemma_jview_arr(*arr, 0);
    }
    let mut out: Vec<ProcessMsg> = Vec::new();
    let mut i: usize = 0;
    while i < arr.len()
        invariant
            0 <= i <= arr@.len(),
            jview_arr(*arr, 0).len() == arr@.len(),
            forall|k: int|
                0 <= k < arr@.len() ==> #[trigger] jview_arr(*arr, 0)[k] == jview(arr@[k]),
            out@.len() == i,
            forall|k: int|
                0 <= k < i ==> process_msg_objok(#[trigger] jview_arr(*arr, 0)[k]) && process_msg_objrel(
                    jview_arr(*arr, 0)[k],
                    out@[k],
                ),
        decreases arr@.len() - i,
    {
        match &arr[i] {
            Json::Obj(o) => match ProcessMsg::from_obj(o) {
                Some(t) => { out.push(t); },
                None => {
                    proof {
                        assert(!process_msg_objok(jview_arr(*arr, 0)[i as int]));
                    }
                    return None;
                },
            },
            _ => {
                proof {
                    assert(!process_msg_objok(jview_arr(*arr, 0)[i as int]));
                }
                return None;
            },
        }
        i = i + 1;
    }
    Some(out)
}

impl ProcessMsg {
    /// Read one record from a parsed object.
    pub fn from_obj(obj: &Vec<(String, Json)>) -> (r: Option<ProcessMsg>)
        ensures
            ({
                let fields = jview_obj(*obj, 0);
                &&& (r is Some <==> process_msg_ok(fields))
                &&& (match r { Some(x) => process_msg_rel(fields, x), None => true })
            }),
    {
    let name = match get_str(obj, "name") { Some(v) => v, None => { return None; } };
    let pid = match get_u32(obj, "pid") { Some(v) => v, None => { return None; } };
    let membytes = match get_u64(obj, "membytes") { Some(v) => v, None => { return None; } };
    let username = match get_str(obj, "username") { Some(v) => v, None => { return None; } };
    let id = match get_str(obj, "id") { Some(v) => v, None => { return None; } };
    let cpu_percent = match get_str(obj, "cpu_percent") { Some(v) => v, None => { return None; } };
    Some(ProcessMsg { name, pid, membytes, username, id, cpu_percent })
    }

    /// Write this record's members in canonical order.
    pub fn to_obj(&self) -> (r: Vec<(String, Json)>)
        ensures
            jview_obj(r, 0) =~= process_msg_fields(*self),
    {
        let mut obj: Vec<(String, Json)> = Vec::new();
        put(&mut obj, "name", jstr(self.name.as_str()));
        put(&mut obj, "pid", jnum_u64(self.pid as u64));
        put(&mut obj, "membytes", jnum_u64(self.membytes));
        put(&mut obj, "username", jstr(self.username.as_str()));
        put(&mut obj, "id", jstr(self.id.as_str()));
        put(&mut obj, "cpu_percent", jstr(self.cpu_percent.as_str()));
        proof {
            assert(jview_obj(obj, 0) =~= process_msg_fields(*self));
        }
        obj
    }

    /// This record as a payload text.
    pub fn encode(&self) -> (r: String)
        ensures
            r@ == crate::json::spec_print(process_msg_gj(*self)),
    {
        let obj = self.to_obj();
        let ghost og = obj;
        let j = Json::Obj(obj);
        proof {
            assert(jview_obj(og, 0) =~= process_msg_fields(*self));
            assert(j@ == process_msg_gj(*self));
        }
        crate::json::json_to_string(&j)
    }

    /// Read one record from a payload text.
    pub fn decode(s: &str) -> (r: Option<ProcessMsg>)
        ensures
            match crate::json::spec_parse_json(s@) {
                Some(g) => match g {
                    GJson::Obj(fields) => (r is Some <==> process_msg_ok(fields)) && (
                    match r { Some(x) => process_msg_rel(fields, x), None => true }),
                    _ => r is None,
                },
                None => r is None,
            },
    {
        match crate::json::parse_json_str(s) {
            Some(Json::Obj(obj)) => ProcessMsg::from_obj(&obj),
            Some(_) => None,
            None => None,
        }
    }
}

/// Writing one `ProcessMsg` and reading the text back yields the same
/// record, member for member.
#[verifier::rlimit(100)]
#[verifier::spinoff_prover]
pub proof fn lemma_process_msg_round_trip(x: ProcessMsg)
    ensures
        crate::json::wf(process_msg_gj(x)),
        crate::json::spec_parse_json(crate::json::spec_print(process_msg_gj(x))) == Some(process_msg_gj(x)),
        process_msg_ok(process_msg_fields(x)),
        process_msg_rel(process_msg_fields(x), x),
{
    lemma_process_msg_canonical(x);
    crate::json::lemma_json_round_trip(process_msg_gj(x));
}

#[verifier::rlimit(100)]
#[verifier::spinoff_prover]
proof fn lemma_process_msg_canonical(x: ProcessMsg)
    ensures
        crate::json::wf(process_msg_gj(x)),
        process_msg_ok(process_msg_fields(x)),
        process_msg_rel(process_msg_fields(x), x),
        process_msg_objok(process_msg_gj(x)),
        process_msg_objrel(process_msg_gj(x), x),
{
    let fields = process_msg_fields(x);
    reveal_strlit("name");
    reveal_strlit("pid");
    reveal_strlit("membytes");
    reveal_strlit("username");
    reveal_strlit("id");
    reveal_strlit("cpu_percent");
    lemma_wf_num_u64(x.pid as u64);
    crate::text::lemma_u64_digits_round_trip(x.pid as u64);
    lemma_wf_num_u64(x.membytes);
    crate::text::lemma_u64_digits_round_trip(x.membytes);
    assert forall|i: int| 0 <= i < 0 implies (#[trigger] fields[i]).0 != "name"@ by {
    }
    lemma_glookup_skip(fields, "name"@, 0);
    assert(fields.skip(0)[0] == fields[0]);
    assert(glookup(fields, "name"@) == Some(fields[0].1));
    assert("name"@.len() == 4);
    assert("pid"@.len() == 3);
    assert("name"@ != "pid"@);
    assert forall|i: int| 0 <= i < 1 implies (#[trigger] fields[i]).0 != "pid"@ by {
        assert(fields[0].0 == "name"@);
    }
    lemma_glookup_skip(fields, "pid"@, 1);
    assert(fields.skip(1)[0] == fields[1]);
    assert(glookup(fields, "pid"@) == Some(fields[1].1));
    assert("name"@.len() == 4);
    assert("membytes"@.len() == 8);
    assert("name"@ != "membytes"@);
    assert("pid"@.len() == 3);
    assert("membytes"@.len() == 8);
    assert("pid"@ != "membytes"@);
    assert forall|i: int| 0 <= i < 2 implies (#[trigger] fields[i]).0 != "membytes"@ by {
        assert(fields[0].0 == "name"@);
        assert(fields[1].0 == "pid"@);
    }
    lemma_glookup_skip(fields, "membytes"@, 2);
    assert(fields.skip(2)[0] == fields[2]);
    assert(glookup(fields, "membytes"@) == Some(fields[2].1));
    assert("name"@.len() == 4);
    assert("username"@.len() == 8);
    assert("name"@ != "username"@);
    assert("pid"@.len() == 3);
    assert("username"@.len() == 8);
    assert("pid"@ != "username"@);
    assert("membytes"@[0] == 'm');
    assert("username"@[0] == 'u');
    assert("membytes"@ != "username"@);
    assert forall|i: int| 0 <= i < 3 implies (#[trigger] fields[i]).0 != "username"@ by {
        assert(fields[0].0 == "name"@);
        assert(fields[1].0 == "pid"@);
        assert(fields[2].0 == "membytes"@);
    }
    lemma_glookup_skip(fields, "username"@, 3);
    assert(fields.skip(3)[0] == fields[3]);
    assert(glookup(fields, "username"@) == Some(fields[3].1));
    assert("name"@.len() == 4);
    assert("id"@.len() == 2);
    assert("name"@ != "id"@);
    assert("pid"@.len() == 3);
    assert("id"@.len() == 2);
    assert("pid"@ != "id"@);
    assert("membytes"@.len() == 8);
    assert("id"@.len() == 2);
    assert("membytes"@ != "id"@);
    assert("username"@.len() == 8);
    assert("id"@.len() == 2);
    assert("username"@ != "id"@);
    assert forall|i: int| 0 <= i < 4 implies (#[trigger] fields[i]).0 != "id"@ by {
        assert(fields[0].0 == "name"@);
        assert(fields[1].0 == "pid"@);
        assert(fields[2].0 == "membytes"@);
        assert(fields[3].0 == "username"@);
    }
    lemma_glookup_skip(fields, "id"@, 4);
    assert(fields.skip(4)[0] == fields[4]);
    assert(glookup(fields, "id"@) == Some(fields[4].1));
    assert("name"@.len() == 4);
    assert("cpu_percent"@.len() == 11);
    assert("name"@ != "cpu_percent"@);
    assert("pid"@.len() == 3);
    assert("cpu_percent"@.len() == 11);
    assert("pid"@ != "cpu_percent"@);
    assert("membytes"@.len() == 8);
    assert("cpu_percent"@.len() == 11);
    assert("membytes"@ != "cpu_percent"@);
    assert("username"@.len() == 8);
    assert("cpu_percent"@.len() == 11);
    assert("username"@ != "cpu_percent"@);
    assert("id"@.len() == 2);
    assert("cpu_percent"@.len() == 11);
    assert("id"@ != "cpu_percent"@);
    assert forall|i: int| 0 <= i < 5 implies (#[trigger] fields[i]).0 != "cpu_percent"@ by {
        assert(fields[0].0 == "name"@);
        assert(fields[1].0 == "pid"@);
        assert(fields[2].0 == "membytes"@);
        assert(fields[3].0 == "username"@);
        assert(fields[4].0 == "id"@);
    }
    lemma_glookup_skip(fields, "cpu_percent"@, 5);
    assert(fields.skip(5)[0] == fields[5]);
    assert(glookup(fields, "cpu_percent"@) == Some(fields[5].1));
    assert forall|i: int| 0 <= i < fields.len() implies crate::json::wf(#[trigger] fields[i].1) by {
        assert(crate::json::wf(fields[0].1));
        assert(crate::json::wf(fields[1].1));
        assert(crate::json::wf(fields[2].1));
        assert(crate::json::wf(fields[3].1));
        assert(crate::json::wf(fields[4].1));
        assert(crate::json::wf(fields[5].1));
    }
}

/// The combined output of a raw command.
#[derive(Debug, Clone)]
pub struct RawCMDResp {
    pub results: String,
}

impl Default for RawCMDResp {
    /// The empty record.
    fn default() -> (r: RawCMDResp)
        ensures
            r.results@.len() == 0,
    {
        proof {
            reveal_strlit("");
        }
        RawCMDResp {
            results: crate::text::string_of(""),
        }
    }
}

/// How a parsed object's members determine one `RawCMDResp`.
pub open spec fn raw_cmd_resp_rel(fields: Seq<(Seq<char>, GJson)>, x: RawCMDResp) -> bool {
    &&& gj_str(glookup(fields, "results"@)) == Some(x.results@)
}

/// Whether an object has every member a `RawCMDResp` needs, well typed.
pub open spec fn raw_cmd_resp_ok(fields: Seq<(Seq<char>, GJson)>) -> bool {
    &&& gj_str(glookup(fields, "results"@)) is Some
}

/// The canonical members of one `RawCMDResp`.
pub open spec fn raw_cmd_resp_fields(x: RawCMDResp) -> Seq<(Seq<char>, GJson)> {
    seq![
        ("results"@, GJson::Str(x.results@)),
    ]
}

pub open spec fn raw_cmd_resp_gj(x: RawCMDResp) -> GJson {
    GJson::Obj(raw_cmd_resp_fields(x))
}

pub open spec fn raw_cmd_resp_objrel(g: GJson, x: RawCMDResp) -> bool {
    g matches GJson::Obj(fields) && raw_cmd_resp_rel(fields, x)
}

pub open spec fn raw_cmd_resp_objok(g: GJson) -> bool {
    g matches GJson::Obj(fields) && raw_cmd_resp_ok(fields)
}

pub open spec fn raw_cmd_resp_vec_rel(elems: Seq<GJson>, v: Vec<RawCMDResp>) -> bool {
    elems.len() == v@.len() && (forall|i: int|
        0 <= i < elems.len() ==> raw_cmd_resp_objrel(#[trigger] elems[i], v@[i]))
}

pub open spec fn raw_cmd_resp_vec_ok(elems: Seq<GJson>) -> bool {
    forall|i: int| 0 <= i < elems.len() ==> raw_cmd_resp_objok(#[trigger] elems[i])
}

pub open spec fn raw_cmd_resp_vec_gj(v: Vec<RawCMDResp>) -> Seq<GJson> {
    Seq::new(v@.len(), |i: int| raw_cmd_resp_gj(v@[i]))
}

/// Write a vector of `RawCMDResp` records as an array value.
pub fn raw_cmd_resp_arr_of(v: &Vec<RawCMDResp>) -> (r: Vec<Json>)
    ensures
        jview_arr(r, 0) =~= raw_cmd_resp_vec_gj(*v),
{
    let mut out: Vec<Json> = Vec::new();
    let mut i: usize = 0;
    while i < v.len()
        invariant
            0 <= i <= v@.len(),
            jview_arr(out, 0) =~= raw_cmd_resp_vec_gj(*v).take(i as int),
        decreases v@.len() - i,
    {
        let ghost o0 = out;
        let item = Json::Obj(v[i].to_obj());
        let ghost ig = item;
        out.push(item);
        proof {
            lemma_jview_arr_push(o0, out, ig);
            assert(jview_arr(out, 0) =~= raw_cmd_resp_vec_gj(*v).take(i + 1));
        }
        i = i + 1;
    }
    proof {
        assert(raw_cmd_resp_vec_gj(*v).take(v@.len() as int) =~= raw_cmd_resp_vec_gj(*v));
    }
    out
}

/// Read an array of `RawCMDResp` records.
pub fn raw_cmd_resp_vec_from(arr: &Vec<Json>) -> (r: Option<Vec<RawCMDResp>>)
    ensures
        r is Some <==> raw_cmd_resp_vec_ok(jview_arr(*arr, 0)),
        match r {
            Some(v) => raw_cmd_resp_vec_rel(jview_arr(*arr, 0), v),
            None => true,
        },
{
    proof {
        crate::json::lemma_jview_arr(*arr, 0);
    }
    let mut out: Vec<RawCMDResp> = Vec::new();
    let mut i: usize = 0;
    while i < arr.len()
        invariant
            0 <= i <= arr@.len(),
            jview_arr(*arr, 0).len() == arr@.len(),
            forall|k: int|
                0 <= k < arr@.len() ==> #[trigger] jview_arr(*arr, 0)[k] == jview(arr@[k]),
            out@.len() == i,
            forall|k: int|
                0 <= k < i ==> raw_cmd_resp_objok(#[trigger] jview_arr(*arr, 0)[k]) && raw_cmd_resp_objrel(
                    jview_arr(*arr, 0)[k],
                    out@[k],
                ),
        decreases arr@.len() - i,
    {
        match &arr[i] {
            Json::Obj(o) => match RawCMDResp::from_obj(o) {
                Some(t) => { out.push(t); },
                None => {
                    proof {
                        assert(!raw_cmd_resp_objok(jview_arr(*arr, 0)[i as int]));
                    }
                    return None;
                },
            },
            _ => {
                proof {
                    assert(!raw_cmd_resp_objok(jview_arr(*arr, 0)[i as int]));
                }
                return None;
            },
        }
        i = i + 1;
    }
    Some(out)
}

impl RawCMDResp {
    /// Read one record from a parsed object.
    pub fn from_obj(obj: &Vec<(String, Json)>) -> (r: Option<RawCMDResp>)
        ensures
            ({
                let fields = jview_obj(*obj, 0);
                &&& (r is Some <==> raw_cmd_resp_ok(fields))
                &&& (match r { Some(x) => raw_cmd_resp_rel(fields, x), None => true })
            }),
    {
    let results = match get_str(obj, "results") { Some(v) => v, None => { return None; } };
    Some(RawCMDResp { results })
    }

    /// Write this record's members in canonical order.
    pub fn to_obj(&self) -> (r: Vec<(String, Json)>)
        ensures
            jview_obj(r, 0) =~= raw_cmd_resp_fields(*self),
    {
        let mut obj: Vec<(String, Json)> = Vec::new();
        put(&mut obj, "results", jstr(self.results.as_str()));
        proof {
            assert(jview_obj(obj, 0) =~= raw_cmd_resp_fields(*self));
        }
        obj
    }

    /// This record as a payload text.
    pub fn encode(&self) -> (r: String)
        ensures
            r@ == crate::json::spec_print(raw_cmd_resp_gj(*self)),
    {
        let obj = self.to_obj();
        let ghost og = obj;
        let j = Json::Obj(obj);
        proof {
            assert(jview_obj(og, 0) =~= raw_cmd_resp_fields(*self));
            assert(j@ == raw_cmd_resp_gj(*self));
        }
        crate::json::json_to_string(&j)
    }

    /// Read one record from a payload text.
    pub fn decode(s: &str) -> (r: Option<RawCMDResp>)
        ensures
            match crate::json::spec_parse_json(s@) {
                Some(g) => match g {
                    GJson::Obj(fields) => (r is Some <==> raw_cmd_resp_ok(fields)) && (
                    match r { Some(x) => raw_cmd_resp_rel(fields, x), None => true }),
                    _ => r is None,
                },
                None => r is None,
            },
    {
        match crate::json::parse_json_str(s) {
            Some(Json::Obj(obj)) => RawCMDResp::from_obj(&obj),
            Some(_) => None,
            None => None,
        }
    }
}

/// Writing one `RawCMDResp` and reading the text back yields the same
/// record, member for member.
#[verifier::rlimit(100)]
#[verifier::spinoff_prover]
pub proof fn lemma_raw_cmd_resp_round_trip(x: RawCMDResp)
    ensures
        crate::json::wf(raw_cmd_resp_gj(x)),
        crate::json::spec_parse_json(crate::json::spec_print(raw_cmd_resp_gj(x))) == Some(raw_cmd_resp_gj(x)),
        raw_cmd_resp_ok(raw_cmd_resp_fields(x)),
        raw_cmd_resp_rel(raw_cmd_resp_fields(x), x),
{
    lemma_raw_cmd_resp_canonical(x);
    crate::json::lemma_json_round_trip(raw_cmd_resp_gj(x));
}

#[verifier::rlimit(100)]
#[verifier::spinoff_prover]
proof fn lemma_raw_cmd_resp_canonical(x: RawCMDResp)
    ensures
        crate::json::wf(raw_cmd_resp_gj(x)),
        raw_cmd_resp_ok(raw_cmd_resp_fields(x)),
        raw_cmd_resp_rel(raw_cmd_resp_fields(x), x),
        raw_cmd_resp_objok(raw_cmd_resp_gj(x)),
        raw_cmd_resp_objrel(raw_cmd_resp_gj(x), x),
{
    let fields = raw_cmd_resp_fields(x);
    reveal_strlit("results");
    assert forall|i: int| 0 <= i < 0 implies (#[trigger] fields[i]).0 != "results"@ by {
    }
    lemma_glookup_skip(fields, "results"@, 0);
    assert(fields.skip(0)[0] == fields[0]);
    assert(glookup(fields, "results"@) == Some(fields[0].1));
    assert forall|i: int| 0 <= i < fields.len() implies crate::json::wf(#[trigger] fields[i].1) by {
        assert(crate::json::wf(fields[0].1));
    }
}

/// The outcome of one script run.
#[derive(Debug, Clone)]
pub struct RunScriptResp {
    pub stdout: String,
    pub stderr: String,
    pub retcode: i32,
    pub execution_time: Dur,
    pub id: i32,
}

impl Default for RunScriptResp {
    /// The empty record.
    fn default() -> (r: RunScriptResp)
        ensures
            r.stdout@.len() == 0,
            r.stderr@.len() == 0,
            r.retcode == 0,
            r.execution_time == (Dur { secs: 0u64, nanos: 0u32 }),
            r.id == 0,
    {
        proof {
            reveal_strlit("");
        }
        RunScriptResp {
            stdout: crate::text::string_of(""),
            stderr: crate::text::string_of(""),
            retcode: 0,
            execution_time: Dur { secs: 0, nanos: 0 },
            id: 0,
        }
    }
}

/// How a parsed object's members determine one `RunScriptResp`.
pub open spec fn run_script_resp_rel(fields: Seq<(Seq<char>, GJson)>, x: RunScriptResp) -> bool {
    &&& gj_str(glookup(fields, "stdout"@)) == Some(x.stdout@)
    &&& gj_str(glookup(fields, "stderr"@)) == Some(x.stderr@)
    &&& gj_i32(glookup(fields, "retcode"@)) == Some(x.retcode)
    &&& gj_dur(glookup(fields, "execution_time"@)) == Some(x.execution_time)
    &&& gj_i32(glookup(fields, "id"@)) == Some(x.id)
}

/// Whether an object has every member a `RunScriptResp` needs, well typed.
pub open spec fn run_script_resp_ok(fields: Seq<(Seq<char>, GJson)>) -> bool {
    &&& gj_str(glookup(fields, "stdout"@)) is Some
    &&& gj_str(glookup(fields, "stderr"@)) is Some
    &&& gj_i32(glookup(fields, "retcode"@)) is Some
    &&& gj_dur(glookup(fields, "execution_time"@)) is Some
    &&& gj_i32(glookup(fields, "id"@)) is Some
}

/// The canonical members of one `RunScriptResp`.
pub open spec fn run_script_resp_fields(x: RunScriptResp) -> Seq<(Seq<char>, GJson)> {
    seq![
        ("stdout"@, GJson::Str(x.stdout@)),
        ("stderr"@, GJson::Str(x.stderr@)),
        ("retcode"@, GJson::Num(int_digits(x.retcode as int))),
        ("execution_time"@, GJson::Str(crate::dur::spec_fmt_dur(x.execution_time))),
        ("id"@, GJson::Num(int_digits(x.id as int))),
    ]
}

pub open spec fn run_script_resp_gj(x: RunScriptResp) -> GJson {
    GJson::Obj(run_script_resp_fields(x))
}

pub open spec fn run_script_resp_objrel(g: GJson, x: RunScriptResp) -> bool {
    g matches GJson::Obj(fields) && run_script_resp_rel(fields, x)
}

pub open spec fn run_script_resp_objok(g: GJson) -> bool {
    g matches GJson::Obj(fields) && run_script_resp_ok(fields)
}

pub open spec fn run_script_resp_vec_rel(elems: Seq<GJson>, v: Vec<RunScriptResp>) -> bool {
    elems.len() == v@.len() && (forall|i: int|
        0 <= i < elems.len() ==> run_script_resp_objrel(#[trigger] elems[i], v@[i]))
}

pub open spec fn run_script_resp_vec_ok(elems: Seq<GJson>) -> bool {
    forall|i: int| 0 <= i < elems.len() ==> run_script_resp_objok(#[trigger] elems[i])
}

pub open spec fn run_script_resp_vec_gj(v: Vec<RunScriptResp>) -> Seq<GJson> {
    Seq::new(v@.len(), |i: int| run_script_resp_gj(v@[i]))
}

/// Write a vector of `RunScriptResp` records as an array value.
pub fn run_script_resp_arr_of(v: &Vec<RunScriptResp>) -> (r: Vec<Json>)
    ensures
        jview_arr(r, 0) =~= run_script_resp_vec_gj(*v),
{
    let mut out: Vec<Json> = Vec::new();
    let mut i: usize = 0;
    while i < v.len()
        invariant
            0 <= i <= v@.len(),
            jview_arr(out, 0) =~= run_script_resp_vec_gj(*v).take(i as int),
        decreases v@.len() - i,
    {
        let ghost o0 = out;
        let item = Json::Obj(v[i].to_obj());
        let ghost ig = item;
        out.push(item);
        proof {
            lemma_jview_arr_push(o0, out, ig);
            assert(jview_arr(out, 0) =~= run_script_resp_vec_gj(*v).take(i + 1));
        }
        i = i + 1;
    }
    proof {
        assert(run_script_resp_vec_gj(*v).take(v@.len() as int) =~= run_script_resp_vec_gj(*v));
    }
    out
}

/// Read an array of `RunScriptResp` records.
pub fn run_script_resp_vec_from(arr: &Vec<Json>) -> (r: Option<Vec<RunScriptResp>>)
    ensures
        r is Some <==> run_script_resp_vec_ok(jview_arr(*arr, 0)),
        match r {
            Some(v) => run_script_resp_vec_rel(jview_arr(*arr, 0), v),
            None => true,
        },
{
    proof {
        crate::json::lemma_jview_arr(*arr, 0);
    }
    let mut out: Vec<RunScriptResp> = Vec::new();
    let mut i: usize = 0;
    while i < arr.len()
        invariant
            0 <= i <= arr@.len(),
            jview_arr(*arr, 0).len() == arr@.len(),
            forall|k: int|
                0 <= k < arr@.len() ==> #[trigger] jview_arr(*arr, 0)[k] == jview(arr@[k]),
            out@.len() == i,
            forall|k: int|
                0 <= k < i ==> run_script_resp_objok(#[trigger] jview_arr(*arr, 0)[k]) && run_script_resp_objrel(
                    jview_arr(*arr, 0)[k],
                    out@[k],
                ),
        decreases arr@.len() - i,
    {
        match &arr[i] {
            Json::Obj(o) => match RunScriptResp::from_obj(o) {
                Some(t) => { out.push(t); },
                None => {
                    proof {
                        assert(!run_script_resp_objok(jview_arr(*arr, 0)[i as int]));
                    }
                    return None;
                },
            },
            _ => {
                proof {
                    assert(!run_script_resp_objok(jview_arr(*arr, 0)[i as int]));
                }
                return None;
            },
        }
        i = i + 1;
    }
    Some(out)
}

impl RunScriptResp {
    /// Read one record from a parsed object.
    pub fn from_obj(obj: &Vec<(String, Json)>) -> (r: Option<RunScriptResp>)
        ensures
            ({
                let fields = jview_obj(*obj, 0);
                &&& (r is Some <==> run_script_resp_ok(fields))
                &&& (match r { Some(x) => run_script_resp_rel(fields, x), None => true })
            }),
    {
    let stdout = match get_str(obj, "stdout") { Some(v) => v, None => { return None; } };
    let stderr = match get_str(obj, "stderr") { Some(v) => v, None => { return None; } };
    let retcode = match get_i32(obj, "retcode") { Some(v) => v, None => { return None; } };
    let execution_time = match get_dur(obj, "execution_time") { Some(v) => v, None => { return None; } };
    let id = match get_i32(obj, "id") { Some(v) => v, None => { return None; } };
    Some(RunScriptResp { stdout, stderr, retcode, execution_time, id })
    }

    /// Write this record's members in canonical order.
    pub fn to_obj(&self) -> (r: Vec<(String, Json)>)
        ensures
            jview_obj(r, 0) =~= run_script_resp_fields(*self),
    {
        let mut obj: Vec<(String, Json)> = Vec::new();
        put(&mut obj, "stdout", jstr(self.stdout.as_str()));
        put(&mut obj, "stderr", jstr(self.stderr.as_str()));
        put(&mut obj, "retcode", jnum_i64(self.retcode as i64));
        put(&mut obj, "execution_time", jdur(self.execution_time));
        put(&mut obj, "id", jnum_i64(self.id as i64));
        proof {
            assert(jview_obj(obj, 0) =~= run_script_resp_fields(*self));
        }
        obj
    }

    /// This record as a payload text.
    pub fn encode(&self) -> (r: String)
        ensures
            r@ == crate::json::spec_print(run_script_resp_gj(*self)),
    {
        let obj = self.to_obj();
        let ghost og = obj;
        let j = Json::Obj(obj);
        proof {
            assert(jview_obj(og, 0) =~= run_script_resp_fields(*self));
            assert(j@ == run_script_resp_gj(*self));
        }
        crate::json::json_to_string(&j)
    }

    /// Read one record from a payload text.
    pub fn decode(s: &str) -> (r: Option<RunScriptResp>)
        ensures
            match crate::json::spec_parse_json(s@) {
                Some(g) => match g {
                    GJson::Obj(fields) => (r is Some <==> run_script_resp_ok(fields)) && (
                    match r { Some(x) => run_script_resp_rel(fields, x), None => true }),
                    _ => r is None,
                },
                None => r is None,
            },
    {
        match crate::json::parse_json_str(s) {
            Some(Json::Obj(obj)) => RunScriptResp::from_obj(&obj),
            Some(_) => None,
            None => None,
        }
    }
}

/// One platform update package.
#[derive(Debug, Clone)]
pub struct WUAPackage {
    pub title: String,
    pub description: String,
    pub categories: Vec<String>,
    pub category_ids: Vec<String>,
    pub kb_article_ids: Vec<String>,
    pub more_info_urls: Vec<String>,
    pub support_url: String,
    pub guid: String,
    pub revision_number: i32,
    pub severity: String,
    pub installed: bool,
    pub downloaded: bool,
}

impl Default for WUAPackage {
    /// The empty record.
    fn default() -> (r: WUAPackage)
        ensures
            r.title@.len() == 0,
            r.description@.len() == 0,
            r.categories@.len() == 0,
            r.category_ids@.len() == 0,
            r.kb_article_ids@.len() == 0,
            r.more_info_urls@.len() == 0,
            r.support_url@.len() == 0,
            r.guid@.len() == 0,
            r.revision_number == 0,
            r.severity@.len() == 0,
            r.installed == false,
            r.downloaded == false,
    {
        proof {
            reveal_strlit("");
        }
        WUAPackage {
            title: crate::text::string_of(""),
            description: crate::text::string_of(""),
            categories: Vec::new(),
            category_ids: Vec::new(),
            kb_article_ids: Vec::new(),
            more_info_urls: Vec::new(),
            support_url: crate::text::string_of(""),
            guid: crate::text::string_of(""),
            revision_number: 0,
            severity: crate::text::string_of(""),
            installed: false,
            downloaded: false,
        }
    }
}

/// How a parsed object's members determine one `WUAPackage`.
pub open spec fn wua_package_rel(fields: Seq<(Seq<char>, GJson)>, x: WUAPackage) -> bool {
    &&& gj_str(glookup(fields, "title"@)) == Some(x.title@)
    &&& gj_str(glookup(fields, "description"@)) == Some(x.description@)
    &&& gj_strvec(glookup(fields, "categories"@)) == Some(strs_view(x.categories))
    &&& gj_strvec(glookup(fields, "category_ids"@)) == Some(strs_view(x.category_ids))
    &&& gj_strvec(glookup(fields, "kb_article_ids"@)) == Some(strs_view(x.kb_article_ids))
    &&& gj_strvec(glookup(fields, "more_info_urls"@)) == Some(strs_view(x.more_info_urls))
    &&& gj_str(glookup(fields, "support_url"@)) == Some(x.support_url@)
    &&& gj_str(glookup(fields, "guid"@)) == Some(x.guid@)
    &&& gj_i32(glookup(fields, "revision_number"@)) == Some(x.revision_number)
    &&& gj_str(glookup(fields, "severity"@)) == Some(x.severity@)
    &&& gj_bool(glookup(fields, "installed"@)) == Some(x.installed)
    &&& gj_bool(glookup(fields, "downloaded"@)) == Some(x.downloaded)
}

/// Whether an object has every member a `WUAPackage` needs, well typed.
pub open spec fn wua_package_ok(fields: Seq<(Seq<char>, GJson)>) -> bool {
    &&& gj_str(glookup(fields, "title"@)) is Some
    &&& gj_str(glookup(fields, "description"@)) is Some
    &&& gj_strvec(glookup(fields, "categories"@)) is Some
    &&& gj_strvec(glookup(fields, "category_ids"@)) is Some
    &&& gj_strvec(glookup(fields, "kb_article_ids"@)) is Some
    &&& gj_strvec(glookup(fields, "more_info_urls"@)) is Some
    &&& gj_str(glookup(fields, "support_url"@)) is Some
    &&& gj_str(glookup(fields, "guid"@)) is Some
    &&& gj_i32(glookup(fields, "revision_number"@)) is Some
    &&& gj_str(glookup(fields, "severity"@)) is Some
    &&& gj_bool(glookup(fields, "installed"@)) is Some
    &&& gj_bool(glookup(fields, "downloaded"@)) is Some
}

/// The canonical members of one `WUAPackage`.
pub open spec fn wua_package_fields(x: WUAPackage) -> Seq<(Seq<char>, GJson)> {
    seq![
        ("title"@, GJson::Str(x.title@)),
        ("description"@, GJson::Str(x.description@)),
        ("categories"@, GJson::Arr(strvec_gj(x.categories))),
        ("category_ids"@, GJson::Arr(strvec_gj(x.category_ids))),
        ("kb_article_ids"@, GJson::Arr(strvec_gj(x.kb_article_ids))),
        ("more_info_urls"@, GJson::Arr(strvec_gj(x.more_info_urls))),
        ("support_url"@, GJson::Str(x.support_url@)),
        ("guid"@, GJson::Str(x.guid@)),
        ("revision_number"@, GJson::Num(int_digits(x.revision_number as int))),
        ("severity"@, GJson::Str(x.severity@)),
        ("installed"@, GJson::Bool(x.installed)),
        ("downloaded"@, GJson::Bool(x.downloaded)),
    ]
}

pub open spec fn wua_package_gj(x: WUAPackage) -> GJson {
    GJson::Obj(wua_package_fields(x))
}

pub open spec fn wua_package_objrel(g: GJson, x: WUAPackage) -> bool {
    g matches GJson::Obj(fields) && wua_package_rel(fields, x)
}

pub open spec fn wua_package_objok(g: GJson) -> bool {
    g matches GJson::Obj(fields) && wua_package_ok(fields)
}

pub open spec fn wua_package_vec_rel(elems: Seq<GJson>, v: Vec<WUAPackage>) -> bool {
    elems.len() == v@.len() && (forall|i: int|
        0 <= i < elems.len() ==> wua_package_objrel(#[trigger] elems[i], v@[i]))
}

pub open spec fn wua_package_vec_ok(elems: Seq<GJson>) -> bool {
    forall|i: int| 0 <= i < elems.len() ==> wua_package_objok(#[trigger] elems[i])
}

pub open spec fn wua_package_vec_gj(v: Vec<WUAPackage>) -> Seq<GJson> {
    Seq::new(v@.len(), |i: int| wua_package_gj(v@[i]))
}

/// Write a vector of `WUAPackage` records as an array value.
pub fn wua_package_arr_of(v: &Vec<WUAPackage>) -> (r: Vec<Json>)
    ensures
        jview_arr(r, 0) =~= wua_package_vec_gj(*v),
{
    let mut out: Vec<Json> = Vec::new();
    let mut i: usize = 0;
    while i < v.len()
        invariant
            0 <= i <= v@.len(),
            jview_arr(out, 0) =~= wua_package_vec_gj(*v).take(i as int),
        decreases v@.len() - i,
    {
        let ghost o0 = out;
        let item = Json::Obj(v[i].to_obj());
        let ghost ig = item;
        out.push(item);
        proof {
            lemma_jview_arr_push(o0, out, ig);
            assert(jview_arr(out, 0) =~= wua_package_vec_gj(*v).take(i + 1));
        }
        i = i + 1;
    }
    proof {
        assert(wua_package_vec_gj(*v).take(v@.len() as int) =~= wua_package_vec_gj(*v));
    }
    out
}

/// Read an array of `WUAPackage` records.
pub fn wua_package_vec_from(arr: &Vec<Json>) -> (r: Option<Vec<WUAPackage>>)
    ensures
        r is Some <==> wua_package_vec_ok(jview_arr(*arr, 0)),
        match r {
            Some(v) => wua_package_vec_rel(jview_arr(*arr, 0), v),
            None => true,
        },
{
    proof {
        crate::json::lemma_jview_arr(*arr, 0);
    }
    let mut out: Vec<WUAPackage> = Vec::new();
    let mut i: usize = 0;
    while i < arr.len()
        invariant
            0 <= i <= arr@.len(),
            jview_arr(*arr, 0).len() == arr@.len(),
            forall|k: int|
                0 <= k < arr@.len() ==> #[trigger] jview_arr(*arr, 0)[k] == jview(arr@[k]),
            out@.len() == i,
            forall|k: int|
                0 <= k < i ==> wua_package_objok(#[trigger] jview_arr(*arr, 0)[k]) && wua_package_objrel(
                    jview_arr(*arr, 0)[k],
                    out@[k],
                ),
        decreases arr@.len() - i,
    {
        match &arr[i] {
            Json::Obj(o) => match WUAPackage::from_obj(o) {
                Some(t) => { out.push(t); },
                None => {
                    proof {
                        assert(!wua_package_objok(jview_arr(*arr, 0)[i as int]));
                    }
                    return None;
                },
            },
            _ => {
                proof {
                    assert(!wua_package_objok(jview_arr(*arr, 0)[i as int]));
                }
                return None;
            },
        }
        i = i + 1;
    }
    Some(out)
}

impl WUAPackage {
    /// Read one record from a parsed object.
    pub fn from_obj(obj: &Vec<(String, Json)>) -> (r: Option<WUAPackage>)
        ensures
            ({
                let fields = jview_obj(*obj, 0);
                &&& (r is Some <==> wua_package_ok(fields))
                &&& (match r { Some(x) => wua_package_rel(fields, x), None => true })
            }),
    {
    let title = match get_str(obj, "title") { Some(v) => v, None => { return None; } };
    let description = match get_str(obj, "description") { Some(v) => v, None => { return None; } };
    let categories = match get_arr(obj, "categories") {
        Some(a) => match arr_to_strvec(a) { Some(v) => v, None => { return None; } },
        None => { return None; },
    };
    let category_ids = match get_arr(obj, "category_ids") {
        Some(a) => match arr_to_strvec(a) { Some(v) => v, None => { return None; } },
        None => { return None; },
    };
    let kb_article_ids = match get_arr(obj, "kb_article_ids") {
        Some(a) => match arr_to_strvec(a) { Some(v) => v, None => { return None; } },
        None => { return None; },
    };
    let more_info_urls = match get_arr(obj, "more_info_urls") {
        Some(a) => match arr_to_strvec(a) { Some(v) => v, None => { return None; } },
        None => { return None; },
    };
    let support_url = match get_str(obj, "support_url") { Some(v) => v, None => { return None; } };
    let guid = match get_str(obj, "guid") { Some(v) => v, None => { return None; } };
    let revision_number = match get_i32(obj, "revision_number") { Some(v) => v, None => { return None; } };
    let severity = match get_str(obj, "severity") { Some(v) => v, None => { return None; } };
    let installed = match get_bool(obj, "installed") { Some(v) => v, None => { return None; } };
    let downloaded = match get_bool(obj, "downloaded") { Some(v) => v, None => { return None; } };
    Some(WUAPackage { title, description, categories, category_ids, kb_article_ids, more_info_urls, support_url, guid, revision_number, severity, installed, downloaded })
    }

    /// Write this record's members in canonical order.
    pub fn to_obj(&self) -> (r: Vec<(String, Json)>)
        ensures
            jview_obj(r, 0) =~= wua_package_fields(*self),
    {
        let mut obj: Vec<(String, Json)> = Vec::new();
        put(&mut obj, "title", jstr(self.title.as_str()));
        put(&mut obj, "description", jstr(self.description.as_str()));
        put(&mut obj, "categories", Json::Arr(strvec_to_arr(&self.categories)));
        put(&mut obj, "category_ids", Json::Arr(strvec_to_arr(&self.category_ids)));
        put(&mut obj, "kb_article_ids", Json::Arr(strvec_to_arr(&self.kb_article_ids)));
        put(&mut obj, "more_info_urls", Json::Arr(strvec_to_arr(&self.more_info_urls)));
        put(&mut obj, "support_url", jstr(self.support_url.as_str()));
        put(&mut obj, "guid", jstr(self.guid.as_str()));
        put(&mut obj, "revision_number", jnum_i64(self.revision_number as i64));
        put(&mut obj, "severity", jstr(self.severity.as_str()));
        put(&mut obj, "installed", Json::Bool(self.installed));
        put(&mut obj, "downloaded", Json::Bool(self.downloaded));
        proof {
            assert(jview_obj(obj, 0) =~= wua_package_fields(*self));
        }
        obj
    }

    /// This record as a payload text.
    pub fn encode(&self) -> (r: String)
        ensures
            r@ == crate::json::spec_print(wua_package_gj(*self)),
    {
        let obj = self.to_obj();
        let ghost og = obj;
        let j = Json::Obj(obj);
        proof {
            assert(jview_obj(og, 0) =~= wua_package_fields(*self));
            assert(j@ == wua_package_gj(*self));
        }
        crate::json::json_to_string(&j)
    }

    /// Read one record from a payload text.
    pub fn decode(s: &str) -> (r: Option<WUAPackage>)
        ensures
            match crate::json::spec_parse_json(s@) {
                Some(g) => match g {
                    GJson::Obj(fields) => (r is Some <==> wua_package_ok(fields)) && (
                    match r { Some(x) => wua_package_rel(fields, x), None => true }),
                    _ => r is None,
                },
                None => r is None,
            },
    {
        match crate::json::parse_json_str(s) {
            Some(Json::Obj(obj)) => WUAPackage::from_obj(&obj),
            Some(_) => None,
            None => None,
        }
    }
}

/// Writing one `WUAPackage` and reading the text back yields the same
/// record, member for member.
#[verifier::rlimit(100)]
#[verifier::spinoff_prover]
pub proof fn lemma_wua_package_round_trip(x: WUAPackage)
    ensures
        crate::json::wf(wua_package_gj(x)),
        crate::json::spec_parse_json(crate::json::spec_print(wua_package_gj(x))) == Some(wua_package_gj(x)),
        wua_package_ok(wua_package_fields(x)),
        wua_package_rel(wua_package_fields(x), x),
{
    lemma_wua_package_canonical(x);
    crate::json::lemma_json_round_trip(wua_package_gj(x));
}

#[verifier::rlimit(100)]
#[verifier::spinoff_prover]
proof fn lemma_wua_package_canonical(x: WUAPackage)
    ensures
        crate::json::wf(wua_package_gj(x)),
        wua_package_ok(wua_package_fields(x)),
        wua_package_rel(wua_package_fields(x), x),
        wua_package_objok(wua_package_gj(x)),
        wua_package_objrel(wua_package_gj(x), x),
{
    let fields = wua_package_fields(x);
    reveal_strlit("title");
    reveal_strlit("description");
    reveal_strlit("categories");
    reveal_strlit("category_ids");
    reveal_strlit("kb_article_ids");
    reveal_strlit("more_info_urls");
    reveal_strlit("support_url");
    reveal_strlit("guid");
    reveal_strlit("revision_number");
    reveal_strlit("severity");
    reveal_strlit("installed");
    reveal_strlit("downloaded");
    lemma_strvec_round(x.categories);
    lemma_strvec_round(x.category_ids);
    lemma_strvec_round(x.kb_article_ids);
    lemma_strvec_round(x.more_info_urls);
    lemma_wf_num_i64(x.revision_number as i64);
    crate::text::lemma_i64_digits_round_trip(x.revision_number as i64);
    assert forall|i: int| 0 <= i < 0 implies (#[trigger] fields[i]).0 != "title"@ by {
    }
    lemma_glookup_skip(fields, "title"@, 0);
    assert(fields.skip(0)[0] == fields[0]);
    assert(glookup(fields, "title"@) == Some(fields[0].1));
    assert("title"@.len() == 5);
    assert("description"@.len() == 11);
    assert("title"@ != "description"@);
    assert forall|i: int| 0 <= i < 1 implies (#[trigger] fields[i]).0 != "description"@ by {
        assert(fields[0].0 == "title"@);
    }
    lemma_glookup_skip(fields, "description"@, 1);
    assert(fields.skip(1)[0] == fields[1]);
    assert(glookup(fields, "description"@) == Some(fields[1].1));
    assert("title"@.len() == 5);
    assert("categories"@.len() == 10);
    assert("title"@ != "categories"@);
    assert("description"@.len() == 11);
    assert("categories"@.len() == 10);
    assert("description"@ != "categories"@);
    assert forall|i: int| 0 <= i < 2 implies (#[trigger] fields[i]).0 != "categories"@ by {
        assert(fields[0].0 == "title"@);
        assert(fields[1].0 == "description"@);
    }
    lemma_glookup_skip(fields, "categories"@, 2);
    assert(fields.skip(2)[0] == fields[2]);
    assert(glookup(fields, "categories"@) == Some(fields[2].1));
    assert("title"@.len() == 5);
    assert("category_ids"@.len() == 12);
    assert("title"@ != "category_ids"@);
    assert("description"@.len() == 11);
    assert("category_ids"@.len() == 12);
    assert("description"@ != "category_ids"@);
    assert("categories"@.len() == 10);
    assert("category_ids"@.len() == 12);
    assert("categories"@ != "category_ids"@);
    assert forall|i: int| 0 <= i < 3 implies (#[trigger] fields[i]).0 != "category_ids"@ by {
        assert(fields[0].0 == "title"@);
        assert(fields[1].0 == "description"@);
        assert(fields[2].0 == "categories"@);
    }
    lemma_glookup_skip(fields, "category_ids"@, 3);
    assert(fields.skip(3)[0] == fields[3]);
    assert(glookup(fields, "category_ids"@) == Some(fields[3].1));
    assert("title"@.len() == 5);
    assert("kb_article_ids"@.len() == 14);
    assert("title"@ != "kb_article_ids"@);
    assert("description"@.len() == 11);
    assert("kb_article_ids"@.len() == 14);
    assert("description"@ != "kb_article_ids"@);
    assert("categories"@.len() == 10);
    assert("kb_article_ids"@.len() == 14);
    assert("categories"@ != "kb_article_ids"@);
    assert("category_ids"@.len() == 12);
    assert("kb_article_ids"@.len() == 14);
    assert("category_ids"@ != "kb_article_ids"@);
    assert forall|i: int| 0 <= i < 4 implies (#[trigger] fields[i]).0 != "kb_article_ids"@ by {
        assert(fields[0].0 == "title"@);
        assert(fields[1].0 == "description"@);
        assert(fields[2].0 == "categories"@);
        assert(fields[3].0 == "category_ids"@);
    }
    lemma_glookup_skip(fields, "kb_article_ids"@, 4);
    assert(fields.skip(4)[0] == fields[4]);
    assert(glookup(fields, "kb_article_ids"@) == Some(fields[4].1));
    assert("title"@.len() == 5);
    assert("more_info_urls"@.len() == 14);
    assert("title"@ != "more_info_urls"@);
    assert("description"@.len() == 11);
    assert("more_info_urls"@.len() == 14);
    assert("description"@ != "more_info_urls"@);
    assert("categories"@.len() == 10);
    assert("more_info_urls"@.len() == 14);
    assert("categories"@ != "more_info_urls"@);
    assert("category_ids"@.len() == 12);
    assert("more_info_urls"@.len() == 14);
    assert("category_ids"@ != "more_info_urls"@);
    assert("kb_article_ids"@[0] == 'k');
    assert("more_info_urls"@[0] == 'm');
    assert("kb_article_ids"@ != "more_info_urls"@);
    assert forall|i: int| 0 <= i < 5 implies (#[trigger] fields[i]).0 != "more_info_urls"@ by {
        assert(fields[0].0 == "title"@);
        assert(fields[1].0 == "description"@);
        assert(fields[2].0 == "categories"@);
        assert(fields[3].0 == "category_ids"@);
        assert(fields[4].0 == "kb_article_ids"@);
    }
    lemma_glookup_skip(fields, "more_info_urls"@, 5);
    assert(fields.skip(5)[0] == fields[5]);
    assert(glookup(fields, "more_info_urls"@) == Some(fields[5].1));
    assert("title"@.len() == 5);
    assert("support_url"@.len() == 11);
    assert("title"@ != "support_url"@);
    assert("description"@[0] == 'd');
    assert("support_url"@[0] == 's');
    assert("description"@ != "support_url"@);
    assert("categories"@.len() == 10);
    assert("support_url"@.len() == 11);
    assert("categories"@ != "support_url"@);
    assert("category_ids"@.len() == 12);
    assert("support_url"@.len() == 11);
    assert("category_ids"@ != "support_url"@);
    assert("kb_article_ids"@.len() == 14);
    assert("support_url"@.len() == 11);
    assert("kb_article_ids"@ != "support_url"@);
    assert("more_info_urls"@.len() == 14);
    assert("support_url"@.len() == 11);
    assert("more_info_urls"@ != "support_url"@);
    assert forall|i: int| 0 <= i < 6 implies (#[trigger] fields[i]).0 != "support_url"@ by {
        assert(fields[0].0 == "title"@);
        assert(fields[1].0 == "description"@);
        assert(fields[2].0 == "categories"@);
        assert(fields[3].0 == "category_ids"@);
        assert(fields[4].0 == "kb_article_ids"@);
        assert(fields[5].0 == "more_info_urls"@);
    }
    lemma_glookup_skip(fields, "support_url"@, 6);
    assert(fields.skip(6)[0] == fields[6]);
    assert(glookup(fields, "support_url"@) == Some(fields[6].1));
    assert("title"@.len() == 5);
    assert("guid"@.len() == 4);
    assert("title"@ != "guid"@);
    assert("description"@.len() == 11);
    assert("guid"@.len() == 4);
    assert("description"@ != "guid"@);
    assert("categories"@.len() == 10);
    assert("guid"@.len() == 4);
    assert("categories"@ != "guid"@);
    assert("category_ids"@.len() == 12);
    assert("guid"@.len() == 4);
    assert("category_ids"@ != "guid"@);
    assert("kb_article_ids"@.len() == 14);
    assert("guid"@.len() == 4);
    assert("kb_article_ids"@ != "guid"@);
    assert("more_info_urls"@.len() == 14);
    assert("guid"@.len() == 4);
    assert("more_info_urls"@ != "guid"@);
    assert("support_url"@.len() == 11);
    assert("guid"@.len() == 4);
    assert("support_url"@ != "guid"@);
    assert forall|i: int| 0 <= i < 7 implies (#[trigger] fields[i]).0 != "guid"@ by {
        assert(fields[0].0 == "title"@);
        assert(fields[1].0 == "description"@);
        assert(fields[2].0 == "categories"@);
        assert(fields[3].0 == "category_ids"@);
        assert(fields[4].0 == "kb_article_ids"@);
        assert(fields[5].0 == "more_info_urls"@);
        assert(fields[6].0 == "support_url"@);
    }
    lemma_glookup_skip(fields, "guid"@, 7);
    assert(fields.skip(7)[0] == fields[7]);
    assert(glookup(fields, "guid"@) == Some(fields[7].1));
    assert("title"@.len() == 5);
    assert("revision_number"@.len() == 15);
    assert("title"@ != "revision_number"@);
    assert("description"@.len() == 11);
    assert("revision_number"@.len() == 15);
    assert("description"@ != "revision_number"@);
    assert("categories"@.len() == 10);
    assert("revision_number"@.len() == 15);
    assert("categories"@ != "revision_number"@);
    assert("category_ids"@.len() == 12);
    assert("revision_number"@.len() == 15);
    assert("category_ids"@ != "revision_number"@);
    assert("kb_article_ids"@.len() == 14);
    assert("revision_number"@.len() == 15);
    assert("kb_article_ids"@ != "revision_number"@);
    assert("more_info_urls"@.len() == 14);
    assert("revision_number"@.len() == 15);
    assert("more_info_urls"@ != "revision_number"@);
    assert("support_url"@.len() == 11);
    assert("revision_number"@.len() == 15);
    assert("support_url"@ != "revision_number"@);
    assert("guid"@.len() == 4);
    assert("revision_number"@.len() == 15);
    assert("guid"@ != "revision_number"@);
    assert forall|i: int| 0 <= i < 8 implies (#[trigger] fields[i]).0 != "revision_number"@ by {
        assert(fields[0].0 == "title"@);
        assert(fields[1].0 == "description"@);
        assert(fields[2].0 == "categories"@);
        assert(fields[3].0 == "category_ids"@);
        assert(fields[4].0 == "kb_article_ids"@);
        assert(fields[5].0 == "more_info_urls"@);
        assert(fields[6].0 == "support_url"@);
        assert(fields[7].0 == "guid"@);
    }
    lemma_glookup_skip(fields, "revision_number"@, 8);
    assert(fields.skip(8)[0] == fields[8]);
    assert(glookup(fields, "revision_number"@) == Some(fields[8].1));
    assert("title"@.len() == 5);
    assert("severity"@.len() == 8);
    assert("title"@ != "severity"@);
    assert("description"@.len() == 11);
    assert("severity"@.len() == 8);
    assert("description"@ != "severity"@);
    assert("categories"@.len() == 10);
    assert("severity"@.len() == 8);
    assert("categories"@ != "severity"@);
    assert("category_ids"@.len() == 12);
    assert("severity"@.len() == 8);
    assert("category_ids"@ != "severity"@);
    assert("kb_article_ids"@.len() == 14);
    assert("severity"@.len() == 8);
    assert("kb_article_ids"@ != "severity"@);
    assert("more_info_urls"@.len() == 14);
    assert("severity"@.len() == 8);
    assert("more_info_urls"@ != "severity"@);
    assert("support_url"@.len() == 11);
    assert("severity"@.len() == 8);
    assert("support_url"@ != "severity"@);
    assert("guid"@.len() == 4);
    assert("severity"@.len() == 8);
    assert("guid"@ != "severity"@);
    assert("revision_number"@.len() == 15);
    assert("severity"@.len() == 8);
    assert("revision_number"@ != "severity"@);
    assert forall|i: int| 0 <= i < 9 implies (#[trigger] fields[i]).0 != "severity"@ by {
        assert(fields[0].0 == "title"@);
        assert(fields[1].0 == "description"@);
        assert(fields[2].0 == "categories"@);
        assert(fields[3].0 == "category_ids"@);
        assert(fields[4].0 == "kb_article_ids"@);
        assert(fields[5].0 == "more_info_urls"@);
        assert(fields[6].0 == "support_url"@);
        assert(fields[7].0 == "guid"@);
        assert(fields[8].0 == "revision_number"@);
    }
    lemma_glookup_skip(fields, "severity"@, 9);
    assert(fields.skip(9)[0] == fields[9]);
    assert(glookup(fields, "severity"@) == Some(fields[9].1));
    assert("title"@.len() == 5);
    assert("installed"@.len() == 9);
    assert("title"@ != "installed"@);
    assert("description"@.len() == 11);
    assert("installed"@.len() == 9);
    assert("description"@ != "installed"@);
    assert("categories"@.len() == 10);
    assert("installed"@.len() == 9);
    assert("categories"@ != "installed"@);
    assert("category_ids"@.len() == 12);
    assert("installed"@.len() == 9);
    assert("category_ids"@ != "installed"@);
    assert("kb_article_ids"@.len() == 14);
    assert("installed"@.len() == 9);
    assert("kb_article_ids"@ != "installed"@);
    assert("more_info_urls"@.len() == 14);
    assert("installed"@.len() == 9);
    assert("more_info_urls"@ != "installed"@);
    assert("support_url"@.len() == 11);
    assert("installed"@.len() == 9);
    assert("support_url"@ != "installed"@);
    assert("guid"@.len() == 4);
    assert("installed"@.len() == 9);
    assert("guid"@ != "installed"@);
    assert("revision_number"@.len() == 15);
    assert("installed"@.len() == 9);
    assert("revision_number"@ != "installed"@);
    assert("severity"@.len() == 8);
    assert("installed"@.len() == 9);
    assert("severity"@ != "installed"@);
    assert forall|i: int| 0 <= i < 10 implies (#[trigger] fields[i]).0 != "installed"@ by {
        assert(fields[0].0 == "title"@);
        assert(fields[1].0 == "description"@);
        assert(fields[2].0 == "categories"@);
        assert(fields[3].0 == "category_ids"@);
        assert(fields[4].0 == "kb_article_ids"@);
        assert(fields[5].0 == "more_info_urls"@);
        assert(fields[6].0 == "support_url"@);
        assert(fields[7].0 == "guid"@);
        assert(fields[8].0 == "revision_number"@);
        assert(fields[9].0 == "severity"@);
    }
    lemma_glookup_skip(fields, "installed"@, 10);
    assert(fields.skip(10)[0] == fields[10]);
    assert(glookup(fields, "installed"@) == Some(fields[10].1));
    assert("title"@.len() == 5);
    assert("downloaded"@.len() == 10);
    assert("title"@ != "downloaded"@);
    assert("description"@.len() == 11);
    assert("downloaded"@.len() == 10);
    assert("description"@ != "downloaded"@);
    assert("categories"@[0] == 'c');
    assert("downloaded"@[0] == 'd');
    assert("categories"@ != "downloaded"@);
    assert("category_ids"@.len() == 12);
    assert("downloaded"@.len() == 10);
    assert("category_ids"@ != "downloaded"@);
    assert("kb_article_ids"@.len() == 14);
    assert("downloaded"@.len() == 10);
    assert("kb_article_ids"@ != "downloaded"@);
    assert("more_info_urls"@.len() == 14);
    assert("downloaded"@.len() == 10);
    assert("more_info_urls"@ != "downloaded"@);
    assert("support_url"@.len() == 11);
    assert("downloaded"@.len() == 10);
    assert("support_url"@ != "downloaded"@);
    assert("guid"@.len() == 4);
    assert("downloaded"@.len() == 10);
    assert("guid"@ != "downloaded"@);
    assert("revision_number"@.len() == 15);
    assert("downloaded"@.len() == 10);
    assert("revision_number"@ != "downloaded"@);
    assert("severity"@.len() == 8);
    assert("downloaded"@.len() == 10);
    assert("severity"@ != "downloaded"@);
    assert("installed"@.len() == 9);
    assert("downloaded"@.len() == 10);
    assert("installed"@ != "downloaded"@);
    assert forall|i: int| 0 <= i < 11 implies (#[trigger] fields[i]).0 != "downloaded"@ by {
        assert(fields[0].0 == "title"@);
        assert(fields[1].0 == "description"@);
        assert(fields[2].0 == "categories"@);
        assert(fields[3].0 == "category_ids"@);
        assert(fields[4].0 == "kb_article_ids"@);
        assert(fields[5].0 == "more_info_urls"@);
        assert(fields[6].0 == "support_url"@);
        assert(fields[7].0 == "guid"@);
        assert(fields[8].0 == "revision_number"@);
        assert(fields[9].0 == "severity"@);
        assert(fields[10].0 == "installed"@);
    }
    lemma_glookup_skip(fields, "downloaded"@, 11);
    assert(fields.skip(11)[0] == fields[11]);
    assert(glookup(fields, "downloaded"@) == Some(fields[11].1));
    assert forall|i: int| 0 <= i < fields.len() implies crate::json::wf(#[trigger] fields[i].1) by {
        assert(crate::json::wf(fields[0].1));
        assert(crate::json::wf(fields[1].1));
        assert(crate::json::wf(fields[2].1));
        assert(crate::json::wf(fields[3].1));
        assert(crate::json::wf(fields[4].1));
        assert(crate::json::wf(fields[5].1));
        assert(crate::json::wf(fields[6].1));
        assert(crate::json::wf(fields[7].1));
        assert(crate::json::wf(fields[8].1));
        assert(crate::json::wf(fields[9].1));
        assert(crate::json::wf(fields[10].1));
        assert(crate::json::wf(fields[11].1));
    }
}

/// One action of an automated task.
#[derive(Debug, Clone)]
pub enum TaskAction {
    CmdScript {
        code: String,
        mode: crate::mode::ScriptMode,
        args: Vec<String>,
        env_vars: Vec<(String, String)>,
        detached: bool,
        timeout: Dur,
    },
    CmdShell { shell: String, command: String, detached: bool, timeout: Dur },
}

/// A stored task: a list of actions run in order.
#[derive(Debug, Clone)]
pub struct AutomatedTask {
    pub id: i32,
    pub task_actions: Vec<TaskAction>,
    pub enabled: bool,
    pub continue_on_error: bool,
}


/// Writing one `RunScriptResp` and reading the text back yields the
/// same record, member for member.
#[verifier::rlimit(100)]
#[verifier::spinoff_prover]
pub proof fn lemma_run_script_resp_round_trip(x: RunScriptResp)
    requires
        x.execution_time.wf(),
    ensures
        crate::json::wf(run_script_resp_gj(x)),
        crate::json::spec_parse_json(crate::json::spec_print(run_script_resp_gj(x))) == Some(
            run_script_resp_gj(x),
        ),
        run_script_resp_ok(run_script_resp_fields(x)),
        run_script_resp_rel(run_script_resp_fields(x), x),
{
    let fields = run_script_resp_fields(x);
    reveal_strlit("stdout");
    reveal_strlit("stderr");
    reveal_strlit("retcode");
    reveal_strlit("execution_time");
    reveal_strlit("id");
    assert("stdout"@.len() == 6);
    assert("stderr"@.len() == 6);
    assert("retcode"@.len() == 7);
    assert("execution_time"@.len() == 14);
    assert("id"@.len() == 2);
    assert("stdout"@[3] == 'o');
    assert("stderr"@[3] == 'e');
    assert("stdout"@ != "stderr"@);
    crate::text::lemma_i64_digits_round_trip(x.retcode as i64);
    lemma_wf_num_i64(x.retcode as i64);
    crate::text::lemma_i64_digits_round_trip(x.id as i64);
    lemma_wf_num_i64(x.id as i64);
    crate::dur::lemma_dur_round_trip(x.execution_time);
    assert(fields[0].0 == "stdout"@);
    assert(glookup(fields, "stdout"@) == Some(fields[0].1));
    assert forall|i: int| 0 <= i < 1 implies (#[trigger] fields[i]).0 != "stderr"@ by {
        assert(fields[0].0 == "stdout"@);
    }
    lemma_glookup_skip(fields, "stderr"@, 1);
    assert(fields.skip(1)[0] == fields[1]);
    assert(glookup(fields, "stderr"@) == Some(fields[1].1));
    assert forall|i: int| 0 <= i < 2 implies (#[trigger] fields[i]).0 != "retcode"@ by {
        assert(fields[0].0 == "stdout"@);
        assert(fields[1].0 == "stderr"@);
    }
    lemma_glookup_skip(fields, "retcode"@, 2);
    assert(fields.skip(2)[0] == fields[2]);
    assert(glookup(fields, "retcode"@) == Some(fields[2].1));
    assert forall|i: int| 0 <= i < 3 implies (#[trigger] fields[i]).0 != "execution_time"@ by {
        assert(fields[0].0 == "stdout"@);
        assert(fields[1].0 == "stderr"@);
        assert(fields[2].0 == "retcode"@);
    }
    lemma_glookup_skip(fields, "execution_time"@, 3);
    assert(fields.skip(3)[0] == fields[3]);
    assert(glookup(fields, "execution_time"@) == Some(fields[3].1));
    assert forall|i: int| 0 <= i < 4 implies (#[trigger] fields[i]).0 != "id"@ by {
        assert(fields[0].0 == "stdout"@);
        assert(fields[1].0 == "stderr"@);
        assert(fields[2].0 == "retcode"@);
        assert(fields[3].0 == "execution_time"@);
    }
    lemma_glookup_skip(fields, "id"@, 4);
    assert(fields.skip(4)[0] == fields[4]);
    assert(glookup(fields, "id"@) == Some(fields[4].1));
    assert forall|i: int| 0 <= i < fields.len() implies crate::json::wf(
        (#[trigger] fields[i]).1,
    ) by {
        assert(crate::json::wf(fields[0].1));
        assert(crate::json::wf(fields[1].1));
        assert(crate::json::wf(fields[2].1));
        assert(crate::json::wf(fields[3].1));
        assert(crate::json::wf(fields[4].1));
    }
    crate::json::lemma_json_round_trip(run_script_resp_gj(x));
}

} // verus!
