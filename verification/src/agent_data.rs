//! The agent's description of itself: its versions, the machine and the
//! process it runs in, how long the machine has been up, and what it watches.

use crate::text::{decimal_text, render_decimal};
use vstd::prelude::*;
use vstd::string::StringExecFns;

verus! {

/// The versions of the agent that the hub knows of.
#[derive(Clone, Debug, PartialEq, Eq)]
pub struct AgentVersion {
    pub latest_version: String,
    pub minimal_version: String,
}

/// The agent's status.
#[derive(Clone, Debug, PartialEq, Eq)]
pub struct AgentData {
    pub agent_version: AgentVersion,
    pub machine_name: String,
    pub process_id: u32,
    /// Seconds since the machine started.
    pub uptime: u64,
    pub watched_directories: Vec<String>,
}

/// Mathematical value of an [`AgentData`].
pub struct AgentDataView {
    pub latest_version: Seq<char>,
    pub minimal_version: Seq<char>,
    pub machine_name: Seq<char>,
    pub process_id: u32,
    pub uptime: u64,
    pub watched_directories: Seq<Seq<char>>,
}

/// The values of `texts`, in order.
pub open spec fn text_views(texts: Seq<String>) -> Seq<Seq<char>> {
    texts.map_values(|text: String| text@)
}

impl View for AgentData {
    type V = AgentDataView;

    open spec fn view(&self) -> AgentDataView {
        AgentDataView {
            latest_version: self.agent_version.latest_version@,
            minimal_version: self.agent_version.minimal_version@,
            machine_name: self.machine_name@,
            process_id: self.process_id,
            uptime: self.uptime,
            watched_directories: text_views(self.watched_directories@),
        }
    }
}

/// What `std`'s `Debug` writes for a string with the characters `text`: the
/// text between double quotes, with the characters that cannot stand there
/// written as escapes.
pub uninterp spec fn spec_quoted(text: Seq<char>) -> Seq<char>;

/// `items` one after the other, with a comma and a space between two of them.
pub open spec fn comma_separated(items: Seq<Seq<char>>) -> Seq<char>
    decreases items.len(),
{
    if items.len() == 0 {
        Seq::empty()
    } else if items.len() == 1 {
        items[0]
    } else {
        comma_separated(items.drop_last()) + ", "@ + items.last()
    }
}

/// The status report: a heading, then one line for each part of the status.
/// `machine_name` and `directories` are written as they are handed in.
pub open spec fn spec_report(
    status: AgentDataView,
    machine_name: Seq<char>,
    directories: Seq<Seq<char>>,
) -> Seq<char> {
    "Agent's status and his configuration below :\n\n        Latest version : "@
        + status.latest_version + "\n        Minimal version : "@ + status.minimal_version
        + "\n        Machine name : "@ + machine_name + "\n        Pid : "@ + decimal_text(
        status.process_id as nat,
    ) + "\n        Up time : "@ + decimal_text(status.uptime as nat)
        + "\n        Watched directories : ["@ + comma_separated(directories) + "]\n        "@
}

/// Calls `gethostname::gethostname`, which asks the operating system for the
/// name of this machine. The name differs from machine to machine, so nothing
/// is claimed of it. `None` stands for a name that is not valid Unicode.
#[verifier::external_body]
fn host_name() -> (name: Option<String>) {
    gethostname::gethostname().into_string().ok()
}

/// Calls `sysinfo::get_current_pid`, which asks the operating system for the
/// identifier of this process. Nothing is claimed of the identifier. `None`
/// stands for a platform on which it cannot be had.
#[verifier::external_body]
fn current_process_id() -> (process_id: Option<u32>) {
    match sysinfo::get_current_pid() {
        Ok(process_id) => Some(process_id.as_u32()),
        Err(_) => None,
    }
}

/// Calls `sysinfo::System::uptime`, which reads from the operating system
/// how many seconds the machine has been up. Nothing is claimed of the number.
#[verifier::external_body]
fn system_uptime() -> (seconds: u64) {
    sysinfo::System::uptime()
}

/// Formats `text` with `std`'s `Debug` for strings. The result is a function
/// of the characters of `text` alone.
#[verifier::external_body]
fn quoted(text: &str) -> (result: String)
    ensures
        result@ == spec_quoted(text@),
{
    format!("{:?}", text)
}

/// Writes `items` one after the other, with a comma and a space between two of them.
pub fn render_list(items: &Vec<String>) -> (text: String)
    ensures
        text@ == comma_separated(text_views(items@)),
{
    let ghost all = text_views(items@);
    let mut text = String::new();
    let mut at: usize = 0;
    while at < items.len()
        invariant
            at <= items.len(),
            all == text_views(items@),
            text@ == comma_separated(all.take(at as int)),
        decreases items.len() - at,
    {
        proof {
            assert(all.take(at + 1).drop_last() =~= all.take(at as int));
            assert(all.take(at + 1).last() == items@[at as int]@);
            if at == 0 {
                assert(text@ + items@[0]@ =~= items@[0]@);
                assert(all.take(1)[0] == items@[0]@);
            }
        }
        if at > 0 {
            text.append(", ");
        }
        text.append(items[at].as_str());
        at = at + 1;
    }
    assert(all.take(at as int) =~= all);
    text
}

impl AgentData {
    /// The status made of these parts, unless the machine's name or the
    /// process identifier could not be had.
    pub fn assemble(
        latest_version: String,
        minimal_version: String,
        machine_name: Option<String>,
        process_id: Option<u32>,
        uptime: u64,
        watched_directories: Vec<String>,
    ) -> (status: Option<AgentData>)
        ensures
            match status {
                Some(status) => {
                    &&& machine_name is Some
                    &&& process_id is Some
                    &&& status@ == (AgentDataView {
                        latest_version: latest_version@,
                        minimal_version: minimal_version@,
                        machine_name: machine_name->0@,
                        process_id: process_id->0,
                        uptime,
                        watched_directories: text_views(watched_directories@),
                    })
                },
                None => machine_name is None || process_id is None,
            },
    {
        match (machine_name, process_id) {
            (Some(machine_name), Some(process_id)) => Some(
                AgentData {
                    agent_version: AgentVersion { latest_version, minimal_version },
                    machine_name,
                    process_id,
                    uptime,
                    watched_directories,
                },
            ),
            _ => None,
        }
    }

    /// The status of this agent as it is now, with the versions and the
    /// watched directories as given. The machine's name, the process
    /// identifier and the uptime are asked of the operating system; there is
    /// no status if the name or the identifier cannot be had.
    pub fn build(
        latest_version: String,
        minimal_version: String,
        directories_watch_args: Vec<String>,
    ) -> (status: Option<AgentData>)
        ensures
            status matches Some(status) ==> {
                &&& status@.latest_version == latest_version@
                &&& status@.minimal_version == minimal_version@
                &&& status@.watched_directories == text_views(directories_watch_args@)
            },
    {
        let machine_name = host_name();
        let process_id = current_process_id();
        let uptime = system_uptime();
        AgentData::assemble(
            latest_version,
            minimal_version,
            machine_name,
            process_id,
            uptime,
            directories_watch_args,
        )
    }

    /// Records `uptime` as the machine's uptime. Nothing else changes.
    pub fn set_uptime(&mut self, uptime: u64)
        ensures
            final(self)@ == (AgentDataView { uptime, ..old(self)@ }),
    {
        self.uptime = uptime;
    }

    /// Brings the uptime up to date. Nothing else changes.
    pub fn update(&mut self)
        ensures
            final(self)@ == (AgentDataView { uptime: final(self)@.uptime, ..old(self)@ }),
    {
        let uptime = system_uptime();
        self.set_uptime(uptime);
    }

    /// Writes the status report from the status, the machine's name as
    /// `machine_name` gives it and the watched directories as `directories`
    /// gives them.
    pub fn report(&self, machine_name: &str, directories: &Vec<String>) -> (text: String)
        ensures
            text@ == spec_report(self@, machine_name@, text_views(directories@)),
    {
        let mut text =
            "Agent's status and his configuration below :\n\n        Latest version : ".to_owned();
        text.append(self.agent_version.latest_version.as_str());
        text.append("\n        Minimal version : ");
        text.append(self.agent_version.minimal_version.as_str());
        text.append("\n        Machine name : ");
        text.append(machine_name);
        text.append("\n        Pid : ");
        text.append(render_decimal(self.process_id as u64).as_str());
        text.append("\n        Up time : ");
        text.append(render_decimal(self.uptime).as_str());
        text.append("\n        Watched directories : [");
        text.append(render_list(directories).as_str());
        text.append("]\n        ");
        text
    }

    /// The status report, for the log: the machine's name and each watched
    /// directory stand in it between quotes.
    pub fn dump(&self) -> (text: String)
        ensures
            text@ == spec_report(
                self@,
                spec_quoted(self@.machine_name),
                self@.watched_directories.map_values(|directory: Seq<char>| spec_quoted(directory)),
            ),
    {
        let machine_name = quoted(self.machine_name.as_str());
        let ghost plain = text_views(self.watched_directories@);
        let ghost wanted = plain.map_values(|directory: Seq<char>| spec_quoted(directory));
        let mut directories: Vec<String> = Vec::new();
        let mut at: usize = 0;
        while at < self.watched_directories.len()
            invariant
                at <= self.watched_directories.len(),
                plain == text_views(self.watched_directories@),
                wanted == plain.map_values(|directory: Seq<char>| spec_quoted(directory)),
                text_views(directories@) == wanted.take(at as int),
            decreases self.watched_directories.len() - at,
        {
            let ghost before = directories@;
            let directory = quoted(self.watched_directories[at].as_str());
            directories.push(directory);
            proof {
                assert(text_views(directories@) =~= text_views(before).push(directory@));
                assert(wanted.take(at + 1) =~= wanted.take(at as int).push(wanted[at as int]));
            }
            at = at + 1;
        }
        assert(wanted.take(at as int) =~= wanted);
        self.report(machine_name.as_str(), &directories)
    }
}

} // verus!
