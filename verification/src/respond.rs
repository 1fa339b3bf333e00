//! Responses: everything the agent publishes back, with the tagged wire
//! codec. The `resp` member names the variant in lowercase. Load figures
//! are carried as verbatim number lexemes, so no floating point crosses
//! this type.
use vstd::prelude::*;

use crate::codec::{
    get_bool, get_i32, get_str, get_val, gj_arr, gj_bool, gj_dur, gj_i32, gj_str, glookup, jdur,
    jnum_i64, jstr, put,
};
use crate::dur::Dur;
use crate::json::{jview, jview_arr, jview_obj, GJson, Json};
use crate::messages::{
    process_msg_arr_of, process_msg_vec_gj, process_msg_vec_ok, process_msg_vec_rel,
    win_service_arr_of, win_service_fields, win_service_gj, win_service_objok,
    win_service_objrel, win_service_vec_gj, win_service_vec_ok, win_service_vec_rel,
    win_software_arr_of, win_software_vec_gj, win_software_vec_ok, win_software_vec_rel,
    wua_package_arr_of, wua_package_vec_gj, wua_package_vec_ok, wua_package_vec_rel, ProcessMsg,
    WUAPackage, WinSoftwareList, WindowsService,
};

verus! {

broadcast use vstd::seq::group_seq_axioms;

/// A response frame, one variant per reply shape.
#[derive(Debug, Clone)]
pub enum NatsResp {
    Pong,
    ProcessMsg { msgs: Vec<ProcessMsg> },
    /// The plain success reply; its wire tag is `ok`.
    Okay,
    RawCMDResp { results: String },
    RunScriptResp { stdout: String, stderr: String, retcode: i32, execution_time: Dur, id: i32 },
    NeedsReboot { needs: bool },
    /// Load averages over one, five and fifteen minutes, as the number
    /// lexemes the host probe produced.
    CpuLoadAvg { one: String, five: String, fifteen: String },
    CpuUssage { usage: String },
    PublicIp { ip: String },
    WinSoftwareNats { software: Vec<WinSoftwareList> },
    WinUpdateResult { updates: Vec<WUAPackage> },
    WinServices { services: Vec<WindowsService> },
    WinSvcDetail { service: WindowsService },
    WinSvcResp { success: bool, errormsg: String },
}

/// A lexeme member: a number token kept verbatim.
pub open spec fn gj_lexeme(o: Option<GJson>) -> Option<Seq<char>> {
    match o {
        Some(GJson::Num(lx)) => Some(lx),
        _ => None,
    }
}

fn get_lexeme(obj: &Vec<(String, Json)>, key: &str) -> (r: Option<String>)
    ensures
        match r {
            Some(s) => gj_lexeme(glookup(jview_obj(*obj, 0), key@)) == Some(s@),
            None => gj_lexeme(glookup(jview_obj(*obj, 0), key@)) is None,
        },
{
    match get_val(obj, key) {
        Some(Json::Num(lx)) => Some(lx.clone()),
        _ => None,
    }
}

pub open spec fn resp_tag(fields: Seq<(Seq<char>, GJson)>) -> Option<Seq<char>> {
    gj_str(glookup(fields, "resp"@))
}

/// Whether an object decodes to some response.
pub open spec fn resp_ok(fields: Seq<(Seq<char>, GJson)>) -> bool {
    match resp_tag(fields) {
        Some(tag) => {
            if tag == "pong"@ || tag == "ok"@ {
                true
            } else if tag == "processmsg"@ {
                gj_arr(glookup(fields, "msgs"@)) matches Some(elems) && process_msg_vec_ok(elems)
            } else if tag == "rawcmdresp"@ {
                gj_str(glookup(fields, "results"@)) is Some
            } else if tag == "runscriptresp"@ {
                &&& gj_str(glookup(fields, "stdout"@)) is Some
                &&& gj_str(glookup(fields, "stderr"@)) is Some
                &&& gj_i32(glookup(fields, "retcode"@)) is Some
                &&& gj_dur(glookup(fields, "execution_time"@)) is Some
                &&& gj_i32(glookup(fields, "id"@)) is Some
            } else if tag == "needsreboot"@ {
                gj_bool(glookup(fields, "needs"@)) is Some
            } else if tag == "cpuloadavg"@ {
                &&& gj_lexeme(glookup(fields, "one"@)) is Some
                &&& gj_lexeme(glookup(fields, "five"@)) is Some
                &&& gj_lexeme(glookup(fields, "fifteen"@)) is Some
            } else if tag == "cpuussage"@ {
                gj_lexeme(glookup(fields, "usage"@)) is Some
            } else if tag == "publicip"@ {
                gj_str(glookup(fields, "ip"@)) is Some
            } else if tag == "winsoftwarenats"@ {
                gj_arr(glookup(fields, "software"@)) matches Some(elems) && win_software_vec_ok(elems)
            } else if tag == "winupdateresult"@ {
                gj_arr(glookup(fields, "updates"@)) matches Some(elems) && wua_package_vec_ok(elems)
            } else if tag == "winservices"@ {
                gj_arr(glookup(fields, "services"@)) matches Some(elems) && win_service_vec_ok(elems)
            } else if tag == "winsvcdetail"@ {
                glookup(fields, "service"@) matches Some(g) && win_service_objok(g)
            } else if tag == "winsvcresp"@ {
                &&& gj_bool(glookup(fields, "success"@)) is Some
                &&& gj_str(glookup(fields, "errormsg"@)) is Some
            } else {
                false
            }
        },
        None => false,
    }
}

/// How an object's members determine a decoded response.
pub open spec fn resp_rel(fields: Seq<(Seq<char>, GJson)>, r: NatsResp) -> bool {
    match r {
        NatsResp::Pong => resp_tag(fields) == Some("pong"@),
        NatsResp::Okay => resp_tag(fields) == Some("ok"@),
        NatsResp::ProcessMsg { msgs } => {
            &&& resp_tag(fields) == Some("processmsg"@)
            &&& gj_arr(glookup(fields, "msgs"@)) matches Some(elems) && process_msg_vec_rel(elems, msgs)
        },
        NatsResp::RawCMDResp { results } => {
            &&& resp_tag(fields) == Some("rawcmdresp"@)
            &&& gj_str(glookup(fields, "results"@)) == Some(results@)
        },
        NatsResp::RunScriptResp { stdout, stderr, retcode, execution_time, id } => {
            &&& resp_tag(fields) == Some("runscriptresp"@)
            &&& gj_str(glookup(fields, "stdout"@)) == Some(stdout@)
            &&& gj_str(glookup(fields, "stderr"@)) == Some(stderr@)
            &&& gj_i32(glookup(fields, "retcode"@)) == Some(retcode)
            &&& gj_dur(glookup(fields, "execution_time"@)) == Some(execution_time)
            &&& gj_i32(glookup(fields, "id"@)) == Some(id)
        },
        NatsResp::NeedsReboot { needs } => {
            &&& resp_tag(fields) == Some("needsreboot"@)
            &&& gj_bool(glookup(fields, "needs"@)) == Some(needs)
        },
        NatsResp::CpuLoadAvg { one, five, fifteen } => {
            &&& resp_tag(fields) == Some("cpuloadavg"@)
            &&& gj_lexeme(glookup(fields, "one"@)) == Some(one@)
            &&& gj_lexeme(glookup(fields, "five"@)) == Some(five@)
            &&& gj_lexeme(glookup(fields, "fifteen"@)) == Some(fifteen@)
        },
        NatsResp::CpuUssage { usage } => {
            &&& resp_tag(fields) == Some("cpuussage"@)
            &&& gj_lexeme(glookup(fields, "usage"@)) == Some(usage@)
        },
        NatsResp::PublicIp { ip } => {
            &&& resp_tag(fields) == Some("publicip"@)
            &&& gj_str(glookup(fields, "ip"@)) == Some(ip@)
        },
        NatsResp::WinSoftwareNats { software } => {
            &&& resp_tag(fields) == Some("winsoftwarenats"@)
            &&& gj_arr(glookup(fields, "software"@)) matches Some(elems) && win_software_vec_rel(elems, software)
        },
        NatsResp::WinUpdateResult { updates } => {
            &&& resp_tag(fields) == Some("winupdateresult"@)
            &&& gj_arr(glookup(fields, "updates"@)) matches Some(elems) && wua_package_vec_rel(elems, updates)
        },
        NatsResp::WinServices { services } => {
            &&& resp_tag(fields) == Some("winservices"@)
            &&& gj_arr(glookup(fields, "services"@)) matches Some(elems) && win_service_vec_rel(elems, services)
        },
        NatsResp::WinSvcDetail { service } => {
            &&& resp_tag(fields) == Some("winsvcdetail"@)
            &&& glookup(fields, "service"@) matches Some(g) && win_service_objrel(g, service)
        },
        NatsResp::WinSvcResp { success, errormsg } => {
            &&& resp_tag(fields) == Some("winsvcresp"@)
            &&& gj_bool(glookup(fields, "success"@)) == Some(success)
            &&& gj_str(glookup(fields, "errormsg"@)) == Some(errormsg@)
        },
    }
}

/// The canonical members of a response.
pub open spec fn resp_fields(r: NatsResp) -> Seq<(Seq<char>, GJson)> {
    match r {
        NatsResp::Pong => seq![("resp"@, GJson::Str("pong"@))],
        NatsResp::Okay => seq![("resp"@, GJson::Str("ok"@))],
        NatsResp::ProcessMsg { msgs } => seq![
            ("resp"@, GJson::Str("processmsg"@)),
            ("msgs"@, GJson::Arr(process_msg_vec_gj(msgs))),
        ],
        NatsResp::RawCMDResp { results } => seq![
            ("resp"@, GJson::Str("rawcmdresp"@)),
            ("results"@, GJson::Str(results@)),
        ],
        NatsResp::RunScriptResp { stdout, stderr, retcode, execution_time, id } => seq![
            ("resp"@, GJson::Str("runscriptresp"@)),
            ("stdout"@, GJson::Str(stdout@)),
            ("stderr"@, GJson::Str(stderr@)),
            ("retcode"@, GJson::Num(crate::text::int_digits(retcode as int))),
            ("execution_time"@, GJson::Str(crate::dur::spec_fmt_dur(execution_time))),
            ("id"@, GJson::Num(crate::text::int_digits(id as int))),
        ],
        NatsResp::NeedsReboot { needs } => seq![
            ("resp"@, GJson::Str("needsreboot"@)),
            ("needs"@, GJson::Bool(needs)),
        ],
        NatsResp::CpuLoadAvg { one, five, fifteen } => seq![
            ("resp"@, GJson::Str("cpuloadavg"@)),
            ("one"@, GJson::Num(one@)),
            ("five"@, GJson::Num(five@)),
            ("fifteen"@, GJson::Num(fifteen@)),
        ],
        NatsResp::CpuUssage { usage } => seq![
            ("resp"@, GJson::Str("cpuussage"@)),
            ("usage"@, GJson::Num(usage@)),
        ],
        NatsResp::PublicIp { ip } => seq![
            ("resp"@, GJson::Str("publicip"@)),
            ("ip"@, GJson::Str(ip@)),
        ],
        NatsResp::WinSoftwareNats { software } => seq![
            ("resp"@, GJson::Str("winsoftwarenats"@)),
            ("software"@, GJson::Arr(win_software_vec_gj(software))),
        ],
        NatsResp::WinUpdateResult { updates } => seq![
            ("resp"@, GJson::Str("winupdateresult"@)),
            ("updates"@, GJson::Arr(wua_package_vec_gj(updates))),
        ],
        NatsResp::WinServices { services } => seq![
            ("resp"@, GJson::Str("winservices"@)),
            ("services"@, GJson::Arr(win_service_vec_gj(services))),
        ],
        NatsResp::WinSvcDetail { service } => seq![
            ("resp"@, GJson::Str("winsvcdetail"@)),
            ("service"@, win_service_gj(service)),
        ],
        NatsResp::WinSvcResp { success, errormsg } => seq![
            ("resp"@, GJson::Str("winsvcresp"@)),
            ("success"@, GJson::Bool(success)),
            ("errormsg"@, GJson::Str(errormsg@)),
        ],
    }
}

pub open spec fn resp_gj(r: NatsResp) -> GJson {
    GJson::Obj(resp_fields(r))
}

impl NatsResp {
    /// Read a response from a parsed object.
    pub fn from_obj(obj: &Vec<(String, Json)>) -> (r: Option<NatsResp>)
        ensures
            ({
                let fields = jview_obj(*obj, 0);
                &&& (r is Some <==> resp_ok(fields))
                &&& (match r {
                    Some(x) => resp_rel(fields, x),
                    None => true,
                })
            }),
    {
        let tag = match get_str(obj, "resp") {
            Some(t) => t,
            None => {
                return None;
            },
        };
        let t = tag.as_str();
        if crate::text::str_eq(t, "pong") {
            Some(NatsResp::Pong)
        } else if crate::text::str_eq(t, "ok") {
            Some(NatsResp::Okay)
        } else if crate::text::str_eq(t, "processmsg") {
            let arr = match crate::codec::get_arr(obj, "msgs") {
                Some(a) => a,
                None => {
                    return None;
                },
            };
            match crate::messages::process_msg_vec_from(arr) {
                Some(msgs) => Some(NatsResp::ProcessMsg { msgs }),
                None => None,
            }
        } else if crate::text::str_eq(t, "rawcmdresp") {
            let results = match get_str(obj, "results") {
                Some(v) => v,
                None => {
                    return None;
                },
            };
            Some(NatsResp::RawCMDResp { results })
        } else if crate::text::str_eq(t, "runscriptresp") {
            let stdout = match get_str(obj, "stdout") {
                Some(v) => v,
                None => {
                    return None;
                },
            };
            let stderr = match get_str(obj, "stderr") {
                Some(v) => v,
                None => {
                    return None;
                },
            };
            let retcode = match get_i32(obj, "retcode") {
                Some(v) => v,
                None => {
                    return None;
                },
            };
            let execution_time = match crate::codec::get_dur(obj, "execution_time") {
                Some(v) => v,
                None => {
                    return None;
                },
            };
            let id = match get_i32(obj, "id") {
                Some(v) => v,
                None => {
                    return None;
                },
            };
            Some(NatsResp::RunScriptResp { stdout, stderr, retcode, execution_time, id })
        } else if crate::text::str_eq(t, "needsreboot") {
            let needs = match get_bool(obj, "needs") {
                Some(v) => v,
                None => {
                    return None;
                },
            };
            Some(NatsResp::NeedsReboot { needs })
        } else if crate::text::str_eq(t, "cpuloadavg") {
            let one = match get_lexeme(obj, "one") {
                Some(v) => v,
                None => {
                    return None;
                },
            };
            let five = match get_lexeme(obj, "five") {
                Some(v) => v,
                None => {
                    return None;
                },
            };
            let fifteen = match get_lexeme(obj, "fifteen") {
                Some(v) => v,
                None => {
                    return None;
                },
            };
            Some(NatsResp::CpuLoadAvg { one, five, fifteen })
        } else if crate::text::str_eq(t, "cpuussage") {
            let usage = match get_lexeme(obj, "usage") {
                Some(v) => v,
                None => {
                    return None;
                },
            };
            Some(NatsResp::CpuUssage { usage })
        } else if crate::text::str_eq(t, "publicip") {
            let ip = match get_str(obj, "ip") {
                Some(v) => v,
                None => {
                    return None;
                },
            };
            Some(NatsResp::PublicIp { ip })
        } else if crate::text::str_eq(t, "winsoftwarenats") {
            let arr = match crate::codec::get_arr(obj, "software") {
                Some(a) => a,
                None => {
                    return None;
                },
            };
            match crate::messages::win_software_vec_from(arr) {
                Some(software) => Some(NatsResp::WinSoftwareNats { software }),
                None => None,
            }
        } else if crate::text::str_eq(t, "winupdateresult") {
            let arr = match crate::codec::get_arr(obj, "updates") {
                Some(a) => a,
                None => {
                    return None;
                },
            };
            match crate::messages::wua_package_vec_from(arr) {
                Some(updates) => Some(NatsResp::WinUpdateResult { updates }),
                None => None,
            }
        } else if crate::text::str_eq(t, "winservices") {
            let arr = match crate::codec::get_arr(obj, "services") {
                Some(a) => a,
                None => {
                    return None;
                },
            };
            match crate::messages::win_service_vec_from(arr) {
                Some(services) => Some(NatsResp::WinServices { services }),
                None => None,
            }
        } else if crate::text::str_eq(t, "winsvcdetail") {
            match get_val(obj, "service") {
                Some(Json::Obj(so)) => match WindowsService::from_obj(so) {
                    Some(service) => Some(NatsResp::WinSvcDetail { service }),
                    None => None,
                },
                Some(_) => None,
                None => None,
            }
        } else if crate::text::str_eq(t, "winsvcresp") {
            let success = match get_bool(obj, "success") {
                Some(v) => v,
                None => {
                    return None;
                },
            };
            let errormsg = match get_str(obj, "errormsg") {
                Some(v) => v,
                None => {
                    return None;
                },
            };
            Some(NatsResp::WinSvcResp { success, errormsg })
        } else {
            None
        }
    }

    /// Read a response from a payload text, as a requesting client does.
    pub fn decode(s: &str) -> (r: Option<NatsResp>)
        ensures
            match crate::json::spec_parse_json(s@) {
                Some(g) => match g {
                    GJson::Obj(fields) => (r is Some <==> resp_ok(fields)) && (match r {
                        Some(x) => resp_rel(fields, x),
                        None => true,
                    }),
                    _ => r is None,
                },
                None => r is None,
            },
    {
        match crate::json::parse_json_str(s) {
            Some(Json::Obj(obj)) => NatsResp::from_obj(&obj),
            Some(_) => None,
            None => None,
        }
    }

    /// Write this response's members in canonical order.
    pub fn to_obj(&self) -> (r: Vec<(String, Json)>)
        ensures
            jview_obj(r, 0) =~= resp_fields(*self),
    {
        let mut obj: Vec<(String, Json)> = Vec::new();
        match self {
            NatsResp::Pong => {
                put(&mut obj, "resp", jstr("pong"));
            },
            NatsResp::Okay => {
                put(&mut obj, "resp", jstr("ok"));
            },
            NatsResp::ProcessMsg { msgs } => {
                put(&mut obj, "resp", jstr("processmsg"));
                put(&mut obj, "msgs", Json::Arr(process_msg_arr_of(msgs)));
            },
            NatsResp::RawCMDResp { results } => {
                put(&mut obj, "resp", jstr("rawcmdresp"));
                put(&mut obj, "results", jstr(results.as_str()));
            },
            NatsResp::RunScriptResp { stdout, stderr, retcode, execution_time, id } => {
                put(&mut obj, "resp", jstr("runscriptresp"));
                put(&mut obj, "stdout", jstr(stdout.as_str()));
                put(&mut obj, "stderr", jstr(stderr.as_str()));
                put(&mut obj, "retcode", jnum_i64(*retcode as i64));
                put(&mut obj, "execution_time", jdur(*execution_time));
                put(&mut obj, "id", jnum_i64(*id as i64));
            },
            NatsResp::NeedsReboot { needs } => {
                put(&mut obj, "resp", jstr("needsreboot"));
                put(&mut obj, "needs", Json::Bool(*needs));
            },
            NatsResp::CpuLoadAvg { one, five, fifteen } => {
                put(&mut obj, "resp", jstr("cpuloadavg"));
                put(&mut obj, "one", Json::Num(one.clone()));
                put(&mut obj, "five", Json::Num(five.clone()));
                put(&mut obj, "fifteen", Json::Num(fifteen.clone()));
            },
            NatsResp::CpuUssage { usage } => {
                put(&mut obj, "resp", jstr("cpuussage"));
                put(&mut obj, "usage", Json::Num(usage.clone()));
            },
            NatsResp::PublicIp { ip } => {
                put(&mut obj, "resp", jstr("publicip"));
                put(&mut obj, "ip", jstr(ip.as_str()));
            },
            NatsResp::WinSoftwareNats { software } => {
                put(&mut obj, "resp", jstr("winsoftwarenats"));
                put(&mut obj, "software", Json::Arr(win_software_arr_of(software)));
            },
            NatsResp::WinUpdateResult { updates } => {
                put(&mut obj, "resp", jstr("winupdateresult"));
                put(&mut obj, "updates", Json::Arr(wua_package_arr_of(updates)));
            },
            NatsResp::WinServices { services } => {
                put(&mut obj, "resp", jstr("winservices"));
                put(&mut obj, "services", Json::Arr(win_service_arr_of(services)));
            },
            NatsResp::WinSvcDetail { service } => {
                put(&mut obj, "resp", jstr("winsvcdetail"));
                let so = service.to_obj();
                let ghost sog = so;
                put(&mut obj, "service", Json::Obj(so));
                proof {
                    assert(jview_obj(sog, 0) =~= win_service_fields(*service));
                }
            },
            NatsResp::WinSvcResp { success, errormsg } => {
                put(&mut obj, "resp", jstr("winsvcresp"));
                put(&mut obj, "success", Json::Bool(*success));
                put(&mut obj, "errormsg", jstr(errormsg.as_str()));
            },
        }
        proof {
            assert(jview_obj(obj, 0) =~= resp_fields(*self));
        }
        obj
    }

    /// This response as a payload text, ready to publish.
    pub fn encode(&self) -> (r: String)
        ensures
            r@ == crate::json::spec_print(resp_gj(*self)),
    {
        let obj = self.to_obj();
        let ghost og = obj;
        let j = Json::Obj(obj);
        proof {
            assert(jview_obj(og, 0) =~= resp_fields(*self));
            assert(j@ == resp_gj(*self));
        }
        crate::json::json_to_string(&j)
    }
}


/// Whether a response's lexeme and duration members are well formed.
pub open spec fn resp_wf(r: NatsResp) -> bool {
    match r {
        NatsResp::RunScriptResp { execution_time, .. } => execution_time.wf(),
        NatsResp::CpuLoadAvg { one, five, fifteen } => crate::json::wf_num(one@)
            && crate::json::wf_num(five@) && crate::json::wf_num(fifteen@),
        NatsResp::CpuUssage { usage } => crate::json::wf_num(usage@),
        _ => true,
    }
}

/// Writing any response and reading the text back yields the same
/// response, member for member.
#[verifier::rlimit(100)]
#[verifier::spinoff_prover]
pub proof fn lemma_response_round_trip(r: NatsResp)
    requires
        resp_wf(r),
    ensures
        crate::json::wf(resp_gj(r)),
        crate::json::spec_parse_json(crate::json::spec_print(resp_gj(r))) == Some(resp_gj(r)),
        resp_ok(resp_fields(r)),
        resp_rel(resp_fields(r), r),
{
    lemma_resp_canonical(r);
    crate::json::lemma_json_round_trip(resp_gj(r));
}

#[verifier::rlimit(100)]
#[verifier::spinoff_prover]
proof fn lemma_resp_canonical(r: NatsResp)
    requires
        resp_wf(r),
    ensures
        crate::json::wf(resp_gj(r)),
        resp_ok(resp_fields(r)),
        resp_rel(resp_fields(r), r),
{
    reveal_strlit("resp");
    reveal_strlit("pong");
    reveal_strlit("ok");
    reveal_strlit("processmsg");
    reveal_strlit("rawcmdresp");
    reveal_strlit("runscriptresp");
    reveal_strlit("needsreboot");
    reveal_strlit("cpuloadavg");
    reveal_strlit("cpuussage");
    reveal_strlit("publicip");
    reveal_strlit("winsoftwarenats");
    reveal_strlit("winupdateresult");
    reveal_strlit("winservices");
    reveal_strlit("winsvcdetail");
    reveal_strlit("winsvcresp");
    assert("pong"@.len() == 4);
    assert("ok"@.len() == 2);
    assert("processmsg"@.len() == 10);
    assert("rawcmdresp"@.len() == 10);
    assert("runscriptresp"@.len() == 13);
    assert("needsreboot"@.len() == 11);
    assert("cpuloadavg"@.len() == 10);
    assert("cpuussage"@.len() == 9);
    assert("publicip"@.len() == 8);
    assert("winsoftwarenats"@.len() == 15);
    assert("winupdateresult"@.len() == 15);
    assert("winservices"@.len() == 11);
    assert("winsvcdetail"@.len() == 12);
    assert("winsvcresp"@.len() == 10);
    assert("processmsg"@[0] == 'p');
    assert("rawcmdresp"@[0] == 'r');
    assert("processmsg"@ != "rawcmdresp"@);
    assert("cpuloadavg"@[0] == 'c');
    assert("processmsg"@ != "cpuloadavg"@);
    assert("winsvcresp"@[0] == 'w');
    assert("processmsg"@ != "winsvcresp"@);
    assert("rawcmdresp"@ != "cpuloadavg"@);
    assert("rawcmdresp"@ != "winsvcresp"@);
    assert("needsreboot"@[0] == 'n');
    assert("winservices"@[0] == 'w');
    assert("needsreboot"@ != "winservices"@);
    assert("cpuloadavg"@ != "winsvcresp"@);
    assert("winsoftwarenats"@[3] == 's');
    assert("winupdateresult"@[3] == 'u');
    assert("winsoftwarenats"@ != "winupdateresult"@);
    let fields = resp_fields(r);
    match r {
        NatsResp::Pong => {
            assert(glookup(fields, "resp"@) == Some(GJson::Str("pong"@)));
            assert forall|i: int| 0 <= i < fields.len() implies crate::json::wf((#[trigger] fields[i]).1) by {
                assert(crate::json::wf(fields[0].1));
            }
        },
        NatsResp::Okay => {
            assert(glookup(fields, "resp"@) == Some(GJson::Str("ok"@)));
            assert forall|i: int| 0 <= i < fields.len() implies crate::json::wf((#[trigger] fields[i]).1) by {
                assert(crate::json::wf(fields[0].1));
            }
        },
        NatsResp::ProcessMsg { msgs } => {
            assert(glookup(fields, "resp"@) == Some(GJson::Str("processmsg"@)));
            reveal_strlit("msgs");
            assert("resp"@[0] == 'r');
            assert("msgs"@[0] == 'm');
            assert("resp"@ != "msgs"@);
            assert forall|i: int| 0 <= i < 1 implies (#[trigger] fields[i]).0 != "msgs"@ by {
                assert(fields[0].0 == "resp"@);
            }
            crate::codec::lemma_glookup_skip(fields, "msgs"@, 1);
            assert(fields.skip(1)[0] == fields[1]);
            assert(glookup(fields, "msgs"@) == Some(fields[1].1));
            assert forall|k: int| 0 <= k < process_msg_vec_gj(msgs).len() implies crate::json::wf(#[trigger] process_msg_vec_gj(msgs)[k]) && crate::messages::process_msg_objok(process_msg_vec_gj(msgs)[k]) && crate::messages::process_msg_objrel(process_msg_vec_gj(msgs)[k], msgs@[k]) by {
                crate::messages::lemma_process_msg_round_trip(msgs@[k]);
            }
            assert(process_msg_vec_rel(process_msg_vec_gj(msgs), msgs));
            assert(process_msg_vec_ok(process_msg_vec_gj(msgs)));
            assert forall|i: int| 0 <= i < fields.len() implies crate::json::wf((#[trigger] fields[i]).1) by {
                assert(crate::json::wf(fields[0].1));
                assert(crate::json::wf(fields[1].1));
            }
        },
        NatsResp::RawCMDResp { results } => {
            assert(glookup(fields, "resp"@) == Some(GJson::Str("rawcmdresp"@)));
            reveal_strlit("results");
            assert("resp"@.len() == 4);
            assert("results"@.len() == 7);
            assert("resp"@ != "results"@);
            assert forall|i: int| 0 <= i < 1 implies (#[trigger] fields[i]).0 != "results"@ by {
                assert(fields[0].0 == "resp"@);
            }
            crate::codec::lemma_glookup_skip(fields, "results"@, 1);
            assert(fields.skip(1)[0] == fields[1]);
            assert(glookup(fields, "results"@) == Some(fields[1].1));
            assert forall|i: int| 0 <= i < fields.len() implies crate::json::wf((#[trigger] fields[i]).1) by {
                assert(crate::json::wf(fields[0].1));
                assert(crate::json::wf(fields[1].1));
            }
        },
        NatsResp::RunScriptResp { stdout, stderr, retcode, execution_time, id } => {
            assert(glookup(fields, "resp"@) == Some(GJson::Str("runscriptresp"@)));
            reveal_strlit("stdout");
            assert("resp"@.len() == 4);
            assert("stdout"@.len() == 6);
            assert("resp"@ != "stdout"@);
            assert forall|i: int| 0 <= i < 1 implies (#[trigger] fields[i]).0 != "stdout"@ by {
                assert(fields[0].0 == "resp"@);
            }
            crate::codec::lemma_glookup_skip(fields, "stdout"@, 1);
            assert(fields.skip(1)[0] == fields[1]);
            assert(glookup(fields, "stdout"@) == Some(fields[1].1));
            reveal_strlit("stderr");
            assert("stderr"@.len() == 6);
            assert("resp"@ != "stderr"@);
            assert("stdout"@[3] == 'o');
            assert("stderr"@[3] == 'e');
            assert("stdout"@ != "stderr"@);
            assert forall|i: int| 0 <= i < 2 implies (#[trigger] fields[i]).0 != "stderr"@ by {
                assert(fields[0].0 == "resp"@);
                assert(fields[1].0 == "stdout"@);
            }
            crate::codec::lemma_glookup_skip(fields, "stderr"@, 2);
            assert(fields.skip(2)[0] == fields[2]);
            assert(glookup(fields, "stderr"@) == Some(fields[2].1));
            reveal_strlit("retcode");
            assert("retcode"@.len() == 7);
            assert("resp"@ != "retcode"@);
            assert("stdout"@ != "retcode"@);
            assert("stderr"@ != "retcode"@);
            assert forall|i: int| 0 <= i < 3 implies (#[trigger] fields[i]).0 != "retcode"@ by {
                assert(fields[0].0 == "resp"@);
                assert(fields[1].0 == "stdout"@);
                assert(fields[2].0 == "stderr"@);
            }
            crate::codec::lemma_glookup_skip(fields, "retcode"@, 3);
            assert(fields.skip(3)[0] == fields[3]);
            assert(glookup(fields, "retcode"@) == Some(fields[3].1));
            crate::text::lemma_i64_digits_round_trip(retcode as i64);
            crate::messages::lemma_wf_num_i64(retcode as i64);
            reveal_strlit("execution_time");
            assert("execution_time"@.len() == 14);
            assert("resp"@ != "execution_time"@);
            assert("stdout"@ != "execution_time"@);
            assert("stderr"@ != "execution_time"@);
            assert("retcode"@ != "execution_time"@);
            assert forall|i: int| 0 <= i < 4 implies (#[trigger] fields[i]).0 != "execution_time"@ by {
                assert(fields[0].0 == "resp"@);
                assert(fields[1].0 == "stdout"@);
                assert(fields[2].0 == "stderr"@);
                assert(fields[3].0 == "retcode"@);
            }
            crate::codec::lemma_glookup_skip(fields, "execution_time"@, 4);
            assert(fields.skip(4)[0] == fields[4]);
            assert(glookup(fields, "execution_time"@) == Some(fields[4].1));
            crate::dur::lemma_dur_round_trip(execution_time);
            reveal_strlit("id");
            assert("id"@.len() == 2);
            assert("resp"@ != "id"@);
            assert("stdout"@ != "id"@);
            assert("stderr"@ != "id"@);
            assert("retcode"@ != "id"@);
            assert("execution_time"@ != "id"@);
            assert forall|i: int| 0 <= i < 5 implies (#[trigger] fields[i]).0 != "id"@ by {
                assert(fields[0].0 == "resp"@);
                assert(fields[1].0 == "stdout"@);
                assert(fields[2].0 == "stderr"@);
                assert(fields[3].0 == "retcode"@);
                assert(fields[4].0 == "execution_time"@);
            }
            crate::codec::lemma_glookup_skip(fields, "id"@, 5);
            assert(fields.skip(5)[0] == fields[5]);
            assert(glookup(fields, "id"@) == Some(fields[5].1));
            crate::text::lemma_i64_digits_round_trip(id as i64);
            crate::messages::lemma_wf_num_i64(id as i64);
            assert forall|i: int| 0 <= i < fields.len() implies crate::json::wf((#[trigger] fields[i]).1) by {
                assert(crate::json::wf(fields[0].1));
                assert(crate::json::wf(fields[1].1));
                assert(crate::json::wf(fields[2].1));
                assert(crate::json::wf(fields[3].1));
                assert(crate::json::wf(fields[4].1));
                assert(crate::json::wf(fields[5].1));
            }
        },
        NatsResp::NeedsReboot { needs } => {
            assert(glookup(fields, "resp"@) == Some(GJson::Str("needsreboot"@)));
            reveal_strlit("needs");
            assert("resp"@.len() == 4);
            assert("needs"@.len() == 5);
            assert("resp"@ != "needs"@);
            assert forall|i: int| 0 <= i < 1 implies (#[trigger] fields[i]).0 != "needs"@ by {
                assert(fields[0].0 == "resp"@);
            }
            crate::codec::lemma_glookup_skip(fields, "needs"@, 1);
            assert(fields.skip(1)[0] == fields[1]);
            assert(glookup(fields, "needs"@) == Some(fields[1].1));
            assert forall|i: int| 0 <= i < fields.len() implies crate::json::wf((#[trigger] fields[i]).1) by {
                assert(crate::json::wf(fields[0].1));
                assert(crate::json::wf(fields[1].1));
            }
        },
        NatsResp::CpuLoadAvg { one, five, fifteen } => {
            assert(glookup(fields, "resp"@) == Some(GJson::Str("cpuloadavg"@)));
            reveal_strlit("one");
            assert("resp"@.len() == 4);
            assert("one"@.len() == 3);
            assert("resp"@ != "one"@);
            assert forall|i: int| 0 <= i < 1 implies (#[trigger] fields[i]).0 != "one"@ by {
                assert(fields[0].0 == "resp"@);
            }
            crate::codec::lemma_glookup_skip(fields, "one"@, 1);
            assert(fields.skip(1)[0] == fields[1]);
            assert(glookup(fields, "one"@) == Some(fields[1].1));
            reveal_strlit("five");
            assert("resp"@[0] == 'r');
            assert("five"@[0] == 'f');
            assert("resp"@ != "five"@);
            assert("five"@.len() == 4);
            assert("one"@ != "five"@);
            assert forall|i: int| 0 <= i < 2 implies (#[trigger] fields[i]).0 != "five"@ by {
                assert(fields[0].0 == "resp"@);
                assert(fields[1].0 == "one"@);
            }
            crate::codec::lemma_glookup_skip(fields, "five"@, 2);
            assert(fields.skip(2)[0] == fields[2]);
            assert(glookup(fields, "five"@) == Some(fields[2].1));
            reveal_strlit("fifteen");
            assert("fifteen"@.len() == 7);
            assert("resp"@ != "fifteen"@);
            assert("one"@ != "fifteen"@);
            assert("five"@ != "fifteen"@);
            assert forall|i: int| 0 <= i < 3 implies (#[trigger] fields[i]).0 != "fifteen"@ by {
                assert(fields[0].0 == "resp"@);
                assert(fields[1].0 == "one"@);
                assert(fields[2].0 == "five"@);
            }
            crate::codec::lemma_glookup_skip(fields, "fifteen"@, 3);
            assert(fields.skip(3)[0] == fields[3]);
            assert(glookup(fields, "fifteen"@) == Some(fields[3].1));
            assert forall|i: int| 0 <= i < fields.len() implies crate::json::wf((#[trigger] fields[i]).1) by {
                assert(crate::json::wf(fields[0].1));
                assert(crate::json::wf(fields[1].1));
                assert(crate::json::wf(fields[2].1));
                assert(crate::json::wf(fields[3].1));
            }
        },
        NatsResp::CpuUssage { usage } => {
            assert(glookup(fields, "resp"@) == Some(GJson::Str("cpuussage"@)));
            reveal_strlit("usage");
            assert("resp"@.len() == 4);
            assert("usage"@.len() == 5);
            assert("resp"@ != "usage"@);
            assert forall|i: int| 0 <= i < 1 implies (#[trigger] fields[i]).0 != "usage"@ by {
                assert(fields[0].0 == "resp"@);
            }
            crate::codec::lemma_glookup_skip(fields, "usage"@, 1);
            assert(fields.skip(1)[0] == fields[1]);
            assert(glookup(fields, "usage"@) == Some(fields[1].1));
            assert forall|i: int| 0 <= i < fields.len() implies crate::json::wf((#[trigger] fields[i]).1) by {
                assert(crate::json::wf(fields[0].1));
                assert(crate::json::wf(fields[1].1));
            }
        },
        NatsResp::PublicIp { ip } => {
            assert(glookup(fields, "resp"@) == Some(GJson::Str("publicip"@)));
            reveal_strlit("ip");
            assert("resp"@.len() == 4);
            assert("ip"@.len() == 2);
            assert("resp"@ != "ip"@);
            assert forall|i: int| 0 <= i < 1 implies (#[trigger] fields[i]).0 != "ip"@ by {
                assert(fields[0].0 == "resp"@);
            }
            crate::codec::lemma_glookup_skip(fields, "ip"@, 1);
            assert(fields.skip(1)[0] == fields[1]);
            assert(glookup(fields, "ip"@) == Some(fields[1].1));
            assert forall|i: int| 0 <= i < fields.len() implies crate::json::wf((#[trigger] fields[i]).1) by {
                assert(crate::json::wf(fields[0].1));
                assert(crate::json::wf(fields[1].1));
            }
        },
        NatsResp::WinSoftwareNats { software } => {
            assert(glookup(fields, "resp"@) == Some(GJson::Str("winsoftwarenats"@)));
            reveal_strlit("software");
            assert("resp"@.len() == 4);
            assert("software"@.len() == 8);
            assert("resp"@ != "software"@);
            assert forall|i: int| 0 <= i < 1 implies (#[trigger] fields[i]).0 != "software"@ by {
                assert(fields[0].0 == "resp"@);
            }
            crate::codec::lemma_glookup_skip(fields, "software"@, 1);
            assert(fields.skip(1)[0] == fields[1]);
            assert(glookup(fields, "software"@) == Some(fields[1].1));
            assert forall|k: int| 0 <= k < win_software_vec_gj(software).len() implies crate::json::wf(#[trigger] win_software_vec_gj(software)[k]) && crate::messages::win_software_objok(win_software_vec_gj(software)[k]) && crate::messages::win_software_objrel(win_software_vec_gj(software)[k], software@[k]) by {
                crate::messages::lemma_win_software_round_trip(software@[k]);
            }
            assert(win_software_vec_rel(win_software_vec_gj(software), software));
            assert(win_software_vec_ok(win_software_vec_gj(software)));
            assert forall|i: int| 0 <= i < fields.len() implies crate::json::wf((#[trigger] fields[i]).1) by {
                assert(crate::json::wf(fields[0].1));
                assert(crate::json::wf(fields[1].1));
            }
        },
        NatsResp::WinUpdateResult { updates } => {
            assert(glookup(fields, "resp"@) == Some(GJson::Str("winupdateresult"@)));
            reveal_strlit("updates");
            assert("resp"@.len() == 4);
            assert("updates"@.len() == 7);
            assert("resp"@ != "updates"@);
            assert forall|i: int| 0 <= i < 1 implies (#[trigger] fields[i]).0 != "updates"@ by {
                assert(fields[0].0 == "resp"@);
            }
            crate::codec::lemma_glookup_skip(fields, "updates"@, 1);
            assert(fields.skip(1)[0] == fields[1]);
            assert(glookup(fields, "updates"@) == Some(fields[1].1));
            assert forall|k: int| 0 <= k < wua_package_vec_gj(updates).len() implies crate::json::wf(#[trigger] wua_package_vec_gj(updates)[k]) && crate::messages::wua_package_objok(wua_package_vec_gj(updates)[k]) && crate::messages::wua_package_objrel(wua_package_vec_gj(updates)[k], updates@[k]) by {
                crate::messages::lemma_wua_package_round_trip(updates@[k]);
            }
            assert(wua_package_vec_rel(wua_package_vec_gj(updates), updates));
            assert(wua_package_vec_ok(wua_package_vec_gj(updates)));
            assert forall|i: int| 0 <= i < fields.len() implies crate::json::wf((#[trigger] fields[i]).1) by {
                assert(crate::json::wf(fields[0].1));
                assert(crate::json::wf(fields[1].1));
            }
        },
        NatsResp::WinServices { services } => {
            assert(glookup(fields, "resp"@) == Some(GJson::Str("winservices"@)));
            reveal_strlit("services");
            assert("resp"@.len() == 4);
            assert("services"@.len() == 8);
            assert("resp"@ != "services"@);
            assert forall|i: int| 0 <= i < 1 implies (#[trigger] fields[i]).0 != "services"@ by {
                assert(fields[0].0 == "resp"@);
            }
            crate::codec::lemma_glookup_skip(fields, "services"@, 1);
            assert(fields.skip(1)[0] == fields[1]);
            assert(glookup(fields, "services"@) == Some(fields[1].1));
            assert forall|k: int| 0 <= k < win_service_vec_gj(services).len() implies crate::json::wf(#[trigger] win_service_vec_gj(services)[k]) && crate::messages::win_service_objok(win_service_vec_gj(services)[k]) && crate::messages::win_service_objrel(win_service_vec_gj(services)[k], services@[k]) by {
                crate::messages::lemma_win_service_round_trip(services@[k]);
            }
            assert(win_service_vec_rel(win_service_vec_gj(services), services));
            assert(win_service_vec_ok(win_service_vec_gj(services)));
            assert forall|i: int| 0 <= i < fields.len() implies crate::json::wf((#[trigger] fields[i]).1) by {
                assert(crate::json::wf(fields[0].1));
                assert(crate::json::wf(fields[1].1));
            }
        },
        NatsResp::WinSvcDetail { service } => {
            assert(glookup(fields, "resp"@) == Some(GJson::Str("winsvcdetail"@)));
            reveal_strlit("service");
            assert("resp"@.len() == 4);
            assert("service"@.len() == 7);
            assert("resp"@ != "service"@);
            assert forall|i: int| 0 <= i < 1 implies (#[trigger] fields[i]).0 != "service"@ by {
                assert(fields[0].0 == "resp"@);
            }
            crate::codec::lemma_glookup_skip(fields, "service"@, 1);
            assert(fields.skip(1)[0] == fields[1]);
            assert(glookup(fields, "service"@) == Some(fields[1].1));
            crate::messages::lemma_win_service_round_trip(service);
            assert forall|i: int| 0 <= i < fields.len() implies crate::json::wf((#[trigger] fields[i]).1) by {
                assert(crate::json::wf(fields[0].1));
                assert(crate::json::wf(fields[1].1));
            }
        },
        NatsResp::WinSvcResp { success, errormsg } => {
            assert(glookup(fields, "resp"@) == Some(GJson::Str("winsvcresp"@)));
            reveal_strlit("success");
            assert("resp"@.len() == 4);
            assert("success"@.len() == 7);
            assert("resp"@ != "success"@);
            assert forall|i: int| 0 <= i < 1 implies (#[trigger] fields[i]).0 != "success"@ by {
                assert(fields[0].0 == "resp"@);
            }
            crate::codec::lemma_glookup_skip(fields, "success"@, 1);
            assert(fields.skip(1)[0] == fields[1]);
            assert(glookup(fields, "success"@) == Some(fields[1].1));
            reveal_strlit("errormsg");
            assert("errormsg"@.len() == 8);
            assert("resp"@ != "errormsg"@);
            assert("success"@ != "errormsg"@);
            assert forall|i: int| 0 <= i < 2 implies (#[trigger] fields[i]).0 != "errormsg"@ by {
                assert(fields[0].0 == "resp"@);
                assert(fields[1].0 == "success"@);
            }
            crate::codec::lemma_glookup_skip(fields, "errormsg"@, 2);
            assert(fields.skip(2)[0] == fields[2]);
            assert(glookup(fields, "errormsg"@) == Some(fields[2].1));
            assert forall|i: int| 0 <= i < fields.len() implies crate::json::wf((#[trigger] fields[i]).1) by {
                assert(crate::json::wf(fields[0].1));
                assert(crate::json::wf(fields[1].1));
                assert(crate::json::wf(fields[2].1));
            }
        },
    }
}

} // verus!
