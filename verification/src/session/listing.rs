//! The list of active sessions: those the manager started, then the
//! displays found running on the host.
use vstd::prelude::*;
use crate::shared_types::{SessionInfo, SessionInfoView, SessionKind};
use crate::session::manager::{LocalSessionManager, ManagedSession, info_of, infos_view};
use crate::session::traits::SessionBackend;
use crate::text::{chars_of, str_eq, string_from_str, string_from_chars, concat, decimal, decimal_string};
use crate::parse::{
    lines_spec, lines_chars, split_spec, split_chars, parse_unsigned_spec, parse_unsigned, views,
    starts_with_spec, starts_with_chars, suffix_from,
};
use crate::os_pal::{x11_display_number_spec, x11_display_number};

verus! {

/// An X11 socket found in the socket directory.
pub struct X11SocketEntry {
    /// The socket's file name.
    pub name: String,
    /// Its owner, when the file's metadata could be read.
    pub owner: Option<u32>,
}

/// An entry of the per-user runtime root.
pub struct RuntimeEntry {
    /// The entry's name (a user id for a user's directory).
    pub name: String,
    pub is_dir: bool,
    /// The names of the files in it, when it could be read.
    pub files: Option<Vec<String>>,
}

/// What a scan of the host's display sockets found.
pub struct DisplayScan {
    pub x11_sockets: Vec<X11SocketEntry>,
    pub runtime_dirs: Vec<RuntimeEntry>,
}

/// The user name given to displays owned by the superuser.
pub open spec fn root_dm_name() -> Seq<char> {
    "root (DM/System)"@
}

/// The name of `uid` from the first password-database line with at least
/// three fields whose third spells `uid`.
pub open spec fn passwd_name_lookup(lines: Seq<Seq<char>>, uid: u32) -> Option<Seq<char>>
    decreases lines.len(),
{
    if lines.len() == 0 {
        None
    } else {
        let f = split_spec(lines[0], ':');
        if f.len() >= 3 && parse_unsigned_spec(f[2], u32::MAX as nat) == Some(uid as nat) {
            Some(f[0])
        } else {
            passwd_name_lookup(lines.drop_first(), uid)
        }
    }
}

/// The name of `uid`, when the password database was read and names it.
pub open spec fn resolved_name(passwd: Option<Seq<char>>, uid: u32) -> Option<Seq<char>> {
    match passwd {
        Some(t) => passwd_name_lookup(lines_spec(t), uid),
        None => None,
    }
}

/// The name of `uid`, or `user_<uid>`.
pub open spec fn user_name_or_placeholder(passwd: Option<Seq<char>>, uid: u32) -> Seq<char> {
    match resolved_name(passwd, uid) {
        Some(n) => n,
        None => "user_"@ + decimal(uid as nat),
    }
}

/// Who an X11 display is shown as belonging to.
pub open spec fn x11_owner_name(owner: Option<u32>, passwd: Option<Seq<char>>) -> Seq<char> {
    match owner {
        None => "unknown"@,
        Some(uid) => if uid == 0 { root_dm_name() } else { user_name_or_placeholder(passwd, uid) },
    }
}

/// Whether some listed session runs on display `d`.
pub open spec fn has_display(list: Seq<SessionInfoView>, d: u8) -> bool {
    exists|i: int| 0 <= i < list.len() && #[trigger] list[i].display_id == d
}

/// Add the display of an X11 socket, unless its display is listed already.
pub open spec fn x11_step(list: Seq<SessionInfoView>, e: X11SocketEntry, passwd: Option<Seq<char>>) -> Seq<SessionInfoView> {
    match x11_display_number_spec(e.name@) {
        None => list,
        Some(d) => if has_display(list, d as u8) {
            list
        } else {
            list.push(SessionInfoView {
                id: "system-display-"@ + decimal(d),
                username: x11_owner_name(e.owner, passwd),
                display_id: d as u8,
                start_time: 0,
                session_kind: SessionKind::X11,
            })
        },
    }
}

/// Add the displays of the X11 sockets, in order.
pub open spec fn x11_fold(list: Seq<SessionInfoView>, entries: Seq<X11SocketEntry>, passwd: Option<Seq<char>>) -> Seq<SessionInfoView>
    decreases entries.len(),
{
    if entries.len() == 0 {
        list
    } else {
        x11_fold(x11_step(list, entries[0], passwd), entries.drop_first(), passwd)
    }
}

/// The display of a runtime-directory file named `wayland-<n>` without a dot.
pub open spec fn wayland_file_display(name: Seq<char>) -> Option<nat> {
    if starts_with_spec(name, "wayland-"@) && !name.contains('.') {
        parse_unsigned_spec(name.subrange(8, name.len() as int), 255)
    } else {
        None
    }
}

/// The position of the first superuser display `d` in the list.
pub open spec fn first_root_at(list: Seq<SessionInfoView>, d: u8) -> Option<int>
    decreases list.len(),
{
    if list.len() == 0 {
        None
    } else if list[0].display_id == d && list[0].username == root_dm_name() {
        Some(0)
    } else {
        match first_root_at(list.drop_first(), d) {
            Some(i) => Some(i + 1),
            None => None,
        }
    }
}

/// Add the Wayland display of a runtime file: it replaces a superuser
/// display of the same number, and is added unless the number is listed.
pub open spec fn wayland_step(list: Seq<SessionInfoView>, fname: Seq<char>, uid: u32, passwd: Option<Seq<char>>) -> Seq<SessionInfoView> {
    match wayland_file_display(fname) {
        None => list,
        Some(d) => {
            let l1 = match first_root_at(list, d as u8) {
                Some(i) => list.remove(i),
                None => list,
            };
            if has_display(l1, d as u8) {
                l1
            } else {
                l1.push(SessionInfoView {
                    id: "system-wayland-"@ + decimal(d),
                    username: user_name_or_placeholder(passwd, uid),
                    display_id: d as u8,
                    start_time: 0,
                    session_kind: SessionKind::Wayland,
                })
            }
        },
    }
}

/// Add the Wayland displays of a user's runtime files, in order.
pub open spec fn wayland_fold(list: Seq<SessionInfoView>, files: Seq<String>, uid: u32, passwd: Option<Seq<char>>) -> Seq<SessionInfoView>
    decreases files.len(),
{
    if files.len() == 0 {
        list
    } else {
        wayland_fold(wayland_step(list, files[0]@, uid, passwd), files.drop_first(), uid, passwd)
    }
}

/// Add the Wayland displays of a runtime entry that is a readable directory
/// named by a user id.
pub open spec fn runtime_step(list: Seq<SessionInfoView>, e: RuntimeEntry, passwd: Option<Seq<char>>) -> Seq<SessionInfoView> {
    if !e.is_dir {
        list
    } else {
        match parse_unsigned_spec(e.name@, u32::MAX as nat) {
            None => list,
            Some(uid) => match e.files {
                None => list,
                Some(fs) => wayland_fold(list, fs@, uid as u32, passwd),
            },
        }
    }
}

/// Add the Wayland displays of the runtime entries, in order.
pub open spec fn runtime_fold(list: Seq<SessionInfoView>, entries: Seq<RuntimeEntry>, passwd: Option<Seq<char>>) -> Seq<SessionInfoView>
    decreases entries.len(),
{
    if entries.len() == 0 {
        list
    } else {
        runtime_fold(runtime_step(list, entries[0], passwd), entries.drop_first(), passwd)
    }
}

/// The full listing: the given sessions, then the X11 displays, then the
/// Wayland displays of the scan.
pub open spec fn listing(managed: Seq<SessionInfoView>, scan: DisplayScan, passwd: Option<Seq<char>>) -> Seq<SessionInfoView> {
    runtime_fold(x11_fold(managed, scan.x11_sockets@, passwd), scan.runtime_dirs@, passwd)
}

/// The name of `uid` in the password database text.
pub fn passwd_name(passwd: &str, uid: u32) -> (r: Option<String>)
    ensures
        match r {
            Some(n) => passwd_name_lookup(lines_spec(passwd@), uid) == Some(n@),
            None => passwd_name_lookup(lines_spec(passwd@), uid) is None,
        },
{
    let text = chars_of(passwd);
    let lines = lines_chars(&text);
    let ghost ls = lines_spec(passwd@);
    assert(ls.subrange(0, ls.len() as int) =~= ls);
    let mut i: usize = 0;
    while i < lines.len()
        invariant
            views(lines@) == ls,
            ls == lines_spec(passwd@),
            i <= lines@.len(),
            passwd_name_lookup(ls, uid) == passwd_name_lookup(ls.subrange(i as int, ls.len() as int), uid),
        decreases lines.len() - i,
    {
        let fields = split_chars(&lines[i], ':');
        assert(ls[i as int] == lines@[i as int]@);
        let matched = if fields.len() >= 3 {
            match parse_unsigned(&fields[2], 0xffff_ffff) {
                Some(v) => v == uid as u64,
                None => false,
            }
        } else {
            false
        };
        proof {
            let rest = ls.subrange(i as int, ls.len() as int);
            assert(rest[0] == ls[i as int]);
            assert(rest.drop_first() =~= ls.subrange(i + 1, ls.len() as int));
            if fields@.len() >= 3 {
                assert(views(fields@)[2] == fields@[2]@);
            }
        }
        if matched {
            assert(views(fields@)[0] == fields@[0]@);
            return Some(string_from_chars(fields[0].as_slice()));
        }
        i = i + 1;
    }
    None
}

fn resolve_name(passwd: Option<&str>, uid: u32) -> (r: String)
    ensures
        r@ == user_name_or_placeholder(match passwd { Some(t) => Some(t@), None => None }, uid),
{
    let found = match passwd {
        Some(t) => passwd_name(t, uid),
        None => None,
    };
    match found {
        Some(n) => n,
        None => {
            let d = decimal_string(uid as u64);
            concat("user_", d.as_str())
        },
    }
}

fn find_display(list: &Vec<SessionInfo>, d: u8) -> (r: bool)
    ensures
        r == has_display(infos_view(list@), d),
{
    let mut i: usize = 0;
    while i < list.len()
        invariant
            i <= list@.len(),
            forall|j: int| 0 <= j < i ==> list@[j].display_id != d,
        decreases list.len() - i,
    {
        if list[i].display_id == d {
            assert(infos_view(list@)[i as int].display_id == d);
            return true;
        }
        i = i + 1;
    }
    proof {
        if has_display(infos_view(list@), d) {
            let k = choose|k: int| 0 <= k < infos_view(list@).len() && #[trigger] infos_view(list@)[k].display_id == d;
            assert(list@[k].display_id == d);
        }
    }
    false
}

proof fn lemma_first_root_found(list: Seq<SessionInfoView>, d: u8, k: int)
    requires
        0 <= k < list.len(),
        list[k].display_id == d && list[k].username == root_dm_name(),
        forall|j: int| 0 <= j < k ==> !(list[j].display_id == d && list[j].username == root_dm_name()),
    ensures
        first_root_at(list, d) == Some(k),
    decreases k,
{
    if k > 0 {
        lemma_first_root_found(list.drop_first(), d, k - 1);
    }
}

proof fn lemma_first_root_absent(list: Seq<SessionInfoView>, d: u8)
    requires
        forall|j: int| 0 <= j < list.len() ==> !(list[j].display_id == d && list[j].username == root_dm_name()),
    ensures
        first_root_at(list, d) == None::<int>,
    decreases list.len(),
{
    if list.len() > 0 {
        lemma_first_root_absent(list.drop_first(), d);
    }
}

fn find_root_display(list: &Vec<SessionInfo>, d: u8) -> (r: Option<usize>)
    ensures
        match r {
            Some(i) => i < list@.len() && first_root_at(infos_view(list@), d) == Some(i as int),
            None => first_root_at(infos_view(list@), d) == None::<int>,
        },
{
    let ghost lv = infos_view(list@);
    let mut i: usize = 0;
    while i < list.len()
        invariant
            lv == infos_view(list@),
            i <= list@.len(),
            forall|j: int| 0 <= j < i ==> !(lv[j].display_id == d && lv[j].username == root_dm_name()),
        decreases list.len() - i,
    {
        assert(lv[i as int] == list@[i as int]@);
        if list[i].display_id == d && str_eq(list[i].username.as_str(), "root (DM/System)") {
            proof {
                lemma_first_root_found(lv, d, i as int);
            }
            return Some(i);
        }
        i = i + 1;
    }
    proof {
        lemma_first_root_absent(lv, d);
    }
    None
}

fn wayland_display_of_file(name: &str) -> (r: Option<u8>)
    ensures
        match r {
            Some(d) => wayland_file_display(name@) == Some(d as nat),
            None => wayland_file_display(name@) is None,
        },
{
    let v = chars_of(name);
    let prefix = chars_of("wayland-");
    proof {
        reveal_strlit("wayland-");
    }
    if !starts_with_chars(&v, &prefix) {
        return None;
    }
    let mut i: usize = 0;
    while i < v.len()
        invariant
            v@ == name@,
            i <= v@.len(),
            forall|j: int| 0 <= j < i ==> v@[j] != '.',
        decreases v.len() - i,
    {
        if v[i] == '.' {
            assert(v@[i as int] == '.');
            assert(v@.contains('.'));
            return None;
        }
        i = i + 1;
    }
    let rest = suffix_from(&v, 8);
    match parse_unsigned(&rest, 255) {
        Some(d) => Some(d as u8),
        None => None,
    }
}

proof fn lemma_infos_push(v: Seq<SessionInfo>, x: SessionInfo)
    ensures
        infos_view(v.push(x)) == infos_view(v).push(x@),
{
    assert(infos_view(v.push(x)) =~= infos_view(v).push(x@));
}

fn add_x11(list: &mut Vec<SessionInfo>, e: &X11SocketEntry, passwd: Option<&str>)
    ensures
        infos_view(final(list)@) == x11_step(infos_view(old(list)@), *e, match passwd { Some(t) => Some(t@), None => None }),
{
    let d = match x11_display_number(e.name.as_str()) {
        Some(d) => d,
        None => return,
    };
    if find_display(list, d) {
        return;
    }
    let username = match e.owner {
        None => string_from_str("unknown"),
        Some(uid) => if uid == 0 { string_from_str("root (DM/System)") } else { resolve_name(passwd, uid) },
    };
    let n = decimal_string(d as u64);
    let info = SessionInfo {
        id: concat("system-display-", n.as_str()),
        username,
        display_id: d,
        start_time: 0,
        session_kind: SessionKind::X11,
    };
    proof {
        lemma_infos_push(list@, info);
    }
    list.push(info);
}

fn add_wayland(list: &mut Vec<SessionInfo>, fname: &str, uid: u32, passwd: Option<&str>)
    ensures
        infos_view(final(list)@) == wayland_step(infos_view(old(list)@), fname@, uid, match passwd { Some(t) => Some(t@), None => None }),
{
    let d = match wayland_display_of_file(fname) {
        Some(d) => d,
        None => return,
    };
    let username = resolve_name(passwd, uid);
    match find_root_display(list, d) {
        Some(i) => {
            let ghost before = list@;
            list.remove(i);
            assert(infos_view(list@) =~= infos_view(before).remove(i as int));
        },
        None => {},
    }
    if find_display(list, d) {
        return;
    }
    let n = decimal_string(d as u64);
    let info = SessionInfo {
        id: concat("system-wayland-", n.as_str()),
        username,
        display_id: d,
        start_time: 0,
        session_kind: SessionKind::Wayland,
    };
    proof {
        lemma_infos_push(list@, info);
    }
    list.push(info);
}

fn add_runtime(list: &mut Vec<SessionInfo>, e: &RuntimeEntry, passwd: Option<&str>)
    ensures
        infos_view(final(list)@) == runtime_step(infos_view(old(list)@), *e, match passwd { Some(t) => Some(t@), None => None }),
{
    let ghost pw = match passwd { Some(t) => Some(t@), None => None::<Seq<char>> };
    if !e.is_dir {
        return;
    }
    let name = chars_of(e.name.as_str());
    let uid = match parse_unsigned(&name, 0xffff_ffff) {
        Some(u) => u as u32,
        None => return,
    };
    let files = match &e.files {
        Some(fs) => fs,
        None => return,
    };
    let ghost start = infos_view(list@);
    let mut i: usize = 0;
    assert(files@.subrange(0, files@.len() as int) =~= files@);
    while i < files.len()
        invariant
            i <= files@.len(),
            pw == (match passwd { Some(t) => Some(t@), None => None::<Seq<char>> }),
            wayland_fold(start, files@, uid, pw)
                == wayland_fold(infos_view(list@), files@.subrange(i as int, files@.len() as int), uid, pw),
        decreases files.len() - i,
    {
        proof {
            let rest = files@.subrange(i as int, files@.len() as int);
            assert(rest[0] == files@[i as int]);
            assert(rest.drop_first() =~= files@.subrange(i + 1, files@.len() as int));
        }
        add_wayland(list, files[i].as_str(), uid, passwd);
        i = i + 1;
    }
}

impl<B: SessionBackend> LocalSessionManager<B> {
    /// The active sessions: those this manager started, in listing order,
    /// then a session for each X11 display found that is not listed yet, then
    /// each Wayland display found, which takes the place of a superuser
    /// display of the same number and is added unless its number is listed.
    /// `passwd` is the text of the password database, when it was read.
    pub fn list_active_sessions(&self, scan: &DisplayScan, passwd: Option<&str>) -> (r: Vec<SessionInfo>)
        requires
            self.wf(),
        ensures
            infos_view(r@) == listing(
                self.session_seq().map_values(|m: ManagedSession<B::Session>| info_of(m)),
                *scan,
                match passwd { Some(t) => Some(t@), None => None },
            ),
    {
        let ghost pw = match passwd { Some(t) => Some(t@), None => None::<Seq<char>> };
        let mut list = self.managed_sessions();
        let ghost managed = infos_view(list@);
        let xs = &scan.x11_sockets;
        let mut i: usize = 0;
        assert(xs@.subrange(0, xs@.len() as int) =~= xs@);
        while i < xs.len()
            invariant
                i <= xs@.len(),
                pw == (match passwd { Some(t) => Some(t@), None => None::<Seq<char>> }),
                x11_fold(managed, xs@, pw) == x11_fold(infos_view(list@), xs@.subrange(i as int, xs@.len() as int), pw),
            decreases xs.len() - i,
        {
            proof {
                let rest = xs@.subrange(i as int, xs@.len() as int);
                assert(rest[0] == xs@[i as int]);
                assert(rest.drop_first() =~= xs@.subrange(i + 1, xs@.len() as int));
            }
            add_x11(&mut list, &xs[i], passwd);
            i = i + 1;
        }
        let ghost after_x11 = infos_view(list@);
        let rs = &scan.runtime_dirs;
        let mut k: usize = 0;
        assert(rs@.subrange(0, rs@.len() as int) =~= rs@);
        while k < rs.len()
            invariant
                k <= rs@.len(),
                pw == (match passwd { Some(t) => Some(t@), None => None::<Seq<char>> }),
                runtime_fold(after_x11, rs@, pw) == runtime_fold(infos_view(list@), rs@.subrange(k as int, rs@.len() as int), pw),
            decreases rs.len() - k,
        {
            proof {
                let rest = rs@.subrange(k as int, rs@.len() as int);
                assert(rest[0] == rs@[k as int]);
                assert(rest.drop_first() =~= rs@.subrange(k + 1, rs@.len() as int));
            }
            add_runtime(&mut list, &rs[k], passwd);
            k = k + 1;
        }
        list
    }
}

} // verus!
