//! Finding the process that holds a port, from the kernel's table of TCP sockets and the open
//! descriptors of the processes.

use vstd::prelude::*;
use vstd::string::*;

use crate::config::listed;
use crate::io_error::other_error;
use crate::io_error::IoError;
use crate::io_error::IoErrorKind;
use crate::io_error::IoErrorView;
use crate::process_manager::ProcessError;
use crate::process_manager::ProcessErrorView;
use crate::process_manager::ProcessManager;
use crate::scan::lines;
use crate::scan::number;
use crate::scan::parse_number;
use crate::scan::piece_after;
use crate::scan::second_piece;
use crate::scan::split_lines;
use crate::scan::split_words;
use crate::scan::views;
use crate::scan::words;
use crate::text::append_decimal;
use crate::text::decimal;

verus! {

/// An entry of `/proc`: its name, and where the links under its `fd` lead, as far as they could
/// be read.
#[derive(Debug)]
pub struct ProcEntry {
    pub name: String,
    pub fd_links: Vec<String>,
}

/// What a `ProcEntry` says.
pub struct ProcEntryView {
    pub name: Seq<char>,
    pub fd_links: Seq<Seq<char>>,
}

impl View for ProcEntry {
    type V = ProcEntryView;

    open spec fn view(&self) -> ProcEntryView {
        ProcEntryView { name: self.name@, fd_links: views(self.fd_links@) }
    }
}

/// What a list of entries says.
pub open spec fn entry_views(entries: Seq<ProcEntry>) -> Seq<ProcEntryView> {
    entries.map_values(|e: ProcEntry| e@)
}

/// The local port of a line of the table: the hexadecimal number behind the colon of its second
/// column.
pub open spec fn local_port(columns: Seq<Seq<char>>) -> Option<nat> {
    match second_piece(columns[1], ':') {
        Some(digits) => number(digits, 16, u16::MAX as nat),
        None => None,
    }
}

/// The inode of the socket that a line of the table describes, where that socket is bound to
/// `port`: its tenth column.
pub open spec fn socket_inode(line: Seq<char>, port: u16) -> Option<nat> {
    let columns = words(line);
    if columns.len() >= 10 && local_port(columns) == Some(port as nat) {
        number(columns[9], 10, u32::MAX as nat)
    } else {
        None
    }
}

/// The process that an entry stands for, where it stands for one: the entries of processes are
/// named by their numbers.
pub open spec fn entry_pid(name: Seq<char>) -> Option<nat> {
    number(name, 10, u32::MAX as nat)
}

/// Where the link of a descriptor leads that is the socket with this inode.
pub open spec fn socket_link(inode: nat) -> Seq<char> {
    "socket:["@ + decimal(inode) + "]"@
}

/// One of the links leads to the socket with this inode.
pub open spec fn holds_socket(links: Seq<Seq<char>>, inode: nat) -> bool {
    exists|k: int| 0 <= k < links.len() && #[trigger] links[k] == socket_link(inode)
}

/// The process of the first entry, from `from` on, that holds a descriptor of the inode.
pub open spec fn inode_owner(entries: Seq<ProcEntryView>, inode: nat, from: int) -> Option<nat>
    decreases entries.len() - from,
{
    if from >= entries.len() {
        None
    } else if holds_socket(entries[from].fd_links, inode) && entry_pid(entries[from].name) is Some {
        entry_pid(entries[from].name)
    } else {
        inode_owner(entries, inode, from + 1)
    }
}

/// The process that holds `port`, by the lines of the table from `from` on.
pub open spec fn port_owner(
    table: Seq<Seq<char>>,
    port: u16,
    entries: Seq<ProcEntryView>,
    from: int,
) -> Option<nat>
    decreases table.len() - from,
{
    if from >= table.len() {
        None
    } else {
        let found = match socket_inode(table[from], port) {
            Some(inode) => inode_owner(entries, inode, 0),
            None => None,
        };
        if found is Some {
            found
        } else {
            port_owner(table, port, entries, from + 1)
        }
    }
}

fn read_socket_inode(line: &str, port: u16) -> (inode: Option<u64>)
    ensures
        match inode {
            Some(n) => socket_inode(line@, port) == Some(n as nat),
            None => socket_inode(line@, port) is None,
        },
{
    let columns = split_words(line);
    proof {
        assert(columns@.len() == words(line@).len());
    }
    if columns.len() < 10 {
        return None;
    }
    proof {
        assert(words(line@)[1] == columns@[1]@);
        assert(words(line@)[9] == columns@[9]@);
    }
    match piece_after(columns[1].as_str(), ':') {
        Some(digits) => {
            match parse_number(digits.as_str(), 16, u16::MAX as u64) {
                Some(p) => {
                    if p == port as u64 {
                        return parse_number(columns[9].as_str(), 10, u32::MAX as u64);
                    }
                },
                None => {},
            }
        },
        None => {},
    }
    None
}

fn read_entry_pid(name: &str) -> (pid: Option<u64>)
    ensures
        match pid {
            Some(n) => entry_pid(name@) == Some(n as nat),
            None => entry_pid(name@) is None,
        },
{
    parse_number(name, 10, u32::MAX as u64)
}

fn any_link_leads_to(links: &Vec<String>, inode: u64) -> (found: bool)
    ensures
        found == holds_socket(views(links@), inode as nat),
{
    let mut wanted = "socket:[".to_owned();
    append_decimal(&mut wanted, inode);
    wanted.append("]");
    let found = listed(links, wanted.as_str());
    proof {
        let all = views(links@);
        if holds_socket(all, inode as nat) {
            let k = choose|k: int|
                0 <= k < all.len() && #[trigger] all[k] == socket_link(inode as nat);
            assert(all.contains(all[k]));
        }
    }
    found
}

fn find_inode_owner(entries: &Vec<ProcEntry>, inode: u64) -> (pid: Option<u64>)
    ensures
        match pid {
            Some(n) => inode_owner(entry_views(entries@), inode as nat, 0) == Some(n as nat),
            None => inode_owner(entry_views(entries@), inode as nat, 0) is None,
        },
{
    let mut i: usize = 0;
    while i < entries.len()
        invariant
            i <= entries@.len(),
            inode_owner(entry_views(entries@), inode as nat, 0) == inode_owner(
                entry_views(entries@),
                inode as nat,
                i as int,
            ),
        decreases entries@.len() - i,
    {
        if any_link_leads_to(&entries[i].fd_links, inode) {
            match read_entry_pid(entries[i].name.as_str()) {
                Some(pid) => {
                    return Some(pid);
                },
                None => {},
            }
        }
        i = i + 1;
    }
    None
}

/// What the numbers that name processes are bounded by.
proof fn lemma_owner_fits(
    table: Seq<Seq<char>>,
    port: u16,
    entries: Seq<ProcEntryView>,
    from: int,
)
    requires
        0 <= from,
    ensures
        port_owner(table, port, entries, from) matches Some(pid) ==> pid <= u32::MAX && exists|
            l: int,
            e: int,
        |
            from <= l < table.len() && 0 <= e < entries.len() && {
                &&& (#[trigger] socket_inode(table[l], port)) is Some
                &&& entry_pid((#[trigger] entries[e]).name) == Some(pid)
                &&& holds_socket(entries[e].fd_links, socket_inode(table[l], port)->0)
            },
    decreases table.len() - from,
{
    if from < table.len() {
        if socket_inode(table[from], port) is Some {
            lemma_inode_owner(entries, socket_inode(table[from], port)->0, 0);
        }
        lemma_owner_fits(table, port, entries, from + 1);
    }
}

proof fn lemma_inode_owner(entries: Seq<ProcEntryView>, inode: nat, from: int)
    requires
        0 <= from,
    ensures
        inode_owner(entries, inode, from) matches Some(pid) ==> pid <= u32::MAX && exists|e: int|
            from <= e < entries.len() && entry_pid((#[trigger] entries[e]).name) == Some(pid)
                && holds_socket(entries[e].fd_links, inode),
    decreases entries.len() - from,
{
    if from < entries.len() {
        lemma_inode_owner(entries, inode, from + 1);
    }
}

/// What a lookup of the process that holds a port says.
pub open spec fn pid_result(r: Result<u32, ProcessError>) -> Result<nat, ProcessErrorView> {
    match r {
        Ok(pid) => Ok(pid as nat),
        Err(e) => Err(e@),
    }
}

/// The process that holds `port`; the first line of the table is its heading.
pub open spec fn port_pid(table: Option<Seq<char>>, port: u16, entries: Seq<ProcEntryView>) -> Result<
    nat,
    ProcessErrorView,
> {
    let found = match table {
        Some(content) => port_owner(lines(content), port, entries, 1),
        None => None,
    };
    match found {
        Some(pid) => Ok(pid),
        None => Err(ProcessErrorView::Io(other_error("couldn't determine port PID"@))),
    }
}

impl ProcessManager {
    /// The PID of a process bound to a port (best effort), from the content of `/proc/net/tcp`,
    /// where it could be read, and the entries of `/proc`.
    pub fn get_port_pid(port: u16, table: Option<&str>, entries: &Vec<ProcEntry>) -> (r: Result<
        u32,
        ProcessError,
    >)
        ensures
            pid_result(r) == port_pid(
                crate::config::opt_str_view(table),
                port,
                entry_views(entries@),
            ),
    {
        if let Some(content) = table {
            let list = split_lines(content);
            let ghost all = lines(content@);
            let mut i: usize = 1;
            proof {
                lemma_owner_fits(all, port, entry_views(entries@), 1);
            }
            while i < list.len()
                invariant
                    views(list@) == all,
                    1 <= i,
                    port_owner(all, port, entry_views(entries@), 1) == port_owner(
                        all,
                        port,
                        entry_views(entries@),
                        i as int,
                    ),
                    port_owner(all, port, entry_views(entries@), 1) matches Some(pid) ==> pid
                        <= u32::MAX,
                    crate::config::opt_str_view(table) == Some(content@),
                    all == lines(content@),
                decreases list@.len() - i,
            {
                proof {
                    assert(all[i as int] == list@[i as int]@);
                }
                match read_socket_inode(list[i].as_str(), port) {
                    Some(inode) => {
                        match find_inode_owner(entries, inode) {
                            Some(pid) => {
                                return Ok(pid as u32);
                            },
                            None => {},
                        }
                    },
                    None => {},
                }
                i = i + 1;
            }
            proof {
                assert(all.len() == list@.len());
            }
        }
        Err(ProcessError::Io(IoError::other("couldn't determine port PID".to_owned())))
    }
}

/// A process that is reported for a port holds a descriptor of a socket that the table shows
/// bound to that port.
pub proof fn law_reported_process_holds_the_port(
    content: Seq<char>,
    port: u16,
    entries: Seq<ProcEntryView>,
)
    requires
        port_pid(Some(content), port, entries) is Ok,
    ensures
        exists|l: int, e: int|
            1 <= l < lines(content).len() && 0 <= e < entries.len() && {
                &&& (#[trigger] socket_inode(lines(content)[l], port)) is Some
                &&& entry_pid((#[trigger] entries[e]).name) == Some(
                    port_pid(Some(content), port, entries)->Ok_0,
                )
                &&& holds_socket(entries[e].fd_links, socket_inode(lines(content)[l], port)->0)
            },
{
    lemma_owner_fits(lines(content), port, entries, 1);
}

/// A line of the table tells the inode in its tenth column exactly where it has that many columns
/// and the second one, behind its colon, is the port in hexadecimal.
pub proof fn law_lines_of_the_table(line: Seq<char>, port: u16)
    ensures
        words(line).len() < 10 ==> socket_inode(line, port) is None,
        words(line).len() >= 10 ==> {
            let digits = second_piece(words(line)[1], ':');
            &&& digits is None ==> socket_inode(line, port) is None
            &&& digits matches Some(d) ==> {
                &&& number(d, 16, 65535) == Some(port as nat) ==> socket_inode(line, port)
                    == number(words(line)[9], 10, 0xffff_ffff)
                &&& number(d, 16, 65535) != Some(port as nat) ==> socket_inode(line, port) is None
            }
        },
{
}

/// An entry stands for the process whose number is its name; a descriptor is the socket with an
/// inode exactly where its link is `socket:[` with the inode and `]`.
pub proof fn law_entries_of_processes(name: Seq<char>, links: Seq<Seq<char>>, inode: nat)
    ensures
        entry_pid(name) == number(name, 10, 0xffff_ffff),
        holds_socket(links, inode) <==> links.contains("socket:["@ + decimal(inode) + "]"@),
{
    if holds_socket(links, inode) {
        let k = choose|k: int| 0 <= k < links.len() && #[trigger] links[k] == socket_link(inode);
        assert(links[k] == "socket:["@ + decimal(inode) + "]"@);
        assert(links.contains(links[k]));
    }
    if links.contains("socket:["@ + decimal(inode) + "]"@) {
        let k = choose|k: int|
            0 <= k < links.len() && links[k] == "socket:["@ + decimal(inode) + "]"@;
        assert(links[k] == socket_link(inode));
    }
}

proof fn lemma_first_owner(entries: Seq<ProcEntryView>, inode: nat, from: int, e: int)
    requires
        0 <= from <= e < entries.len(),
        holds_socket(entries[e].fd_links, inode),
        entry_pid(entries[e].name) is Some,
        forall|d: int|
            from <= d < e ==> !holds_socket((#[trigger] entries[d]).fd_links, inode) || entry_pid(
                entries[d].name,
            ) is None,
    ensures
        inode_owner(entries, inode, from) == entry_pid(entries[e].name),
    decreases e - from,
{
    if from < e {
        assert(!holds_socket(entries[from].fd_links, inode) || entry_pid(entries[from].name) is None);
        lemma_first_owner(entries, inode, from + 1, e);
    }
}

/// The owner of an inode is the first process that holds a descriptor of it, and there is none
/// only where no process does.
pub proof fn law_owner_of_an_inode(entries: Seq<ProcEntryView>, inode: nat, e: int)
    ensures
        0 <= e < entries.len() && holds_socket(entries[e].fd_links, inode) && entry_pid(
            entries[e].name,
        ) is Some && (forall|d: int|
            0 <= d < e ==> !holds_socket((#[trigger] entries[d]).fd_links, inode) || entry_pid(
                entries[d].name,
            ) is None) ==> inode_owner(entries, inode, 0) == entry_pid(entries[e].name),
        (forall|d: int|
            0 <= d < entries.len() ==> !holds_socket((#[trigger] entries[d]).fd_links, inode)
                || entry_pid(entries[d].name) is None) ==> inode_owner(entries, inode, 0) is None,
{
    if 0 <= e < entries.len() && holds_socket(entries[e].fd_links, inode) && entry_pid(
        entries[e].name,
    ) is Some && (forall|d: int|
        0 <= d < e ==> !holds_socket((#[trigger] entries[d]).fd_links, inode) || entry_pid(
            entries[d].name,
        ) is None) {
        lemma_first_owner(entries, inode, 0, e);
    }
    lemma_inode_owner(entries, inode, 0);
}

proof fn lemma_first_line(
    table: Seq<Seq<char>>,
    port: u16,
    entries: Seq<ProcEntryView>,
    from: int,
    l: int,
)
    requires
        0 <= from <= l < table.len(),
        socket_inode(table[l], port) is Some,
        inode_owner(entries, socket_inode(table[l], port)->0, 0) is Some,
        forall|k: int|
            from <= k < l ==> (socket_inode(#[trigger] table[k], port) matches Some(inode)
                ==> inode_owner(entries, inode, 0) is None),
    ensures
        port_owner(table, port, entries, from) == inode_owner(
            entries,
            socket_inode(table[l], port)->0,
            0,
        ),
    decreases l - from,
{
    if from < l {
        assert(socket_inode(table[from], port) matches Some(inode) ==> inode_owner(
            entries,
            inode,
            0,
        ) is None);
        lemma_first_line(table, port, entries, from + 1, l);
    }
}

proof fn lemma_no_line(table: Seq<Seq<char>>, port: u16, entries: Seq<ProcEntryView>, from: int)
    requires
        0 <= from,
        forall|k: int|
            from <= k < table.len() ==> (socket_inode(#[trigger] table[k], port) matches Some(inode)
                ==> inode_owner(entries, inode, 0) is None),
    ensures
        port_owner(table, port, entries, from) is None,
    decreases table.len() - from,
{
    if from < table.len() {
        assert(socket_inode(table[from], port) matches Some(inode) ==> inode_owner(
            entries,
            inode,
            0,
        ) is None);
        lemma_no_line(table, port, entries, from + 1);
    }
}

/// The process that holds a port is the owner of the socket on the first line below the heading
/// that tells one with an owner; where no line does, or there is no table, none can be told.
pub proof fn law_process_of_a_port(
    content: Seq<char>,
    port: u16,
    entries: Seq<ProcEntryView>,
    l: int,
)
    ensures
        ({
            let table = lines(content);
            let unknown = Err::<nat, ProcessErrorView>(
                ProcessErrorView::Io(
                    IoErrorView {
                        kind: IoErrorKind::Other,
                        text: "couldn't determine port PID"@,
                    },
                ),
            );
            &&& 1 <= l < table.len() && socket_inode(table[l], port) is Some && inode_owner(
                entries,
                socket_inode(table[l], port)->0,
                0,
            ) is Some && (forall|k: int|
                1 <= k < l ==> (socket_inode(#[trigger] table[k], port) matches Some(inode)
                    ==> inode_owner(entries, inode, 0) is None)) ==> port_pid(
                Some(content),
                port,
                entries,
            ) == Ok::<nat, ProcessErrorView>(
                inode_owner(entries, socket_inode(table[l], port)->0, 0)->0,
            )
            &&& (forall|k: int|
                1 <= k < table.len() ==> (socket_inode(#[trigger] table[k], port) matches Some(
                    inode,
                ) ==> inode_owner(entries, inode, 0) is None)) ==> port_pid(
                Some(content),
                port,
                entries,
            ) == unknown
            &&& port_pid(None, port, entries) == unknown
        }),
{
    let table = lines(content);
    if 1 <= l < table.len() && socket_inode(table[l], port) is Some && inode_owner(
        entries,
        socket_inode(table[l], port)->0,
        0,
    ) is Some && (forall|k: int|
        1 <= k < l ==> (socket_inode(#[trigger] table[k], port) matches Some(inode) ==> inode_owner(
            entries,
            inode,
            0,
        ) is None)) {
        lemma_first_line(table, port, entries, 1, l);
    }
    if forall|k: int|
        1 <= k < table.len() ==> (socket_inode(#[trigger] table[k], port) matches Some(inode)
            ==> inode_owner(entries, inode, 0) is None) {
        lemma_no_line(table, port, entries, 1);
    }
}

} // verus!
