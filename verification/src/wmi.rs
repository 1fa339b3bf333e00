//! The inventory report: the fixed section names the collector fills,
//! and the assembler that lays its rows out as one report tree.
use vstd::prelude::*;

use crate::codec::{lemma_jview_obj_push, put};
use crate::json::{jview, jview_obj, GJson, Json};

verus! {

broadcast use vstd::seq::group_seq_axioms;

/// The thirteen section names of a full inventory report, in order.
pub fn wmi_section_names() -> (r: [&'static str; 13])
    ensures
        r@.len() == 13,
        r@[0]@ == "comp_sys_prod"@,
        r@[1]@ == "comp_sys"@,
        r@[2]@ == "network_config"@,
        r@[3]@ == "mem"@,
        r@[4]@ == "os"@,
        r@[5]@ == "base_board"@,
        r@[6]@ == "bios"@,
        r@[7]@ == "disk"@,
        r@[8]@ == "network_adapter"@,
        r@[9]@ == "desktop_monitor"@,
        r@[10]@ == "cpu"@,
        r@[11]@ == "usb"@,
        r@[12]@ == "graphics"@,
{
    [
        "comp_sys_prod",
        "comp_sys",
        "network_config",
        "mem",
        "os",
        "base_board",
        "bios",
        "disk",
        "network_adapter",
        "desktop_monitor",
        "cpu",
        "usb",
        "graphics",
    ]
}

/// An inventory report under assembly: named sections in the order the
/// collector produced them.
#[derive(Debug)]
pub struct WMI {
    sections: Vec<(String, Json)>,
}

impl WMI {
    pub closed spec fn spec_sections(&self) -> Seq<(Seq<char>, GJson)> {
        jview_obj(self.sections, 0)
    }

    /// An empty report.
    pub fn new() -> (r: WMI)
        ensures
            r.spec_sections().len() == 0,
    {
        let sections: Vec<(String, Json)> = Vec::new();
        proof {
            crate::json::lemma_jview_obj(sections, 0);
        }
        WMI { sections }
    }

    /// Add one section's rows under its name.
    pub fn push_section(&mut self, name: &str, rows: Json)
        ensures
            final(self).spec_sections() == old(self).spec_sections().push((name@, rows@)),
    {
        put(&mut self.sections, name, rows);
    }

    /// The finished report: one object holding every section in order.
    pub fn report(self) -> (r: Json)
        ensures
            r@ == GJson::Obj(self.spec_sections()),
    {
        Json::Obj(self.sections)
    }
}

} // verus!
