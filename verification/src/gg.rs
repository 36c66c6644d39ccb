//! GameGuardian discovery.
//!
//! GG randomizes its package and its label per install, so it is told by its structure: the
//! marker file `/data/data/<pkg>/files/<GG-xxxx>/version.gg` is unique to it. The running UI
//! process is the one whose `/proc/<pid>/cmdline` starts with `<pkg>`.

use vstd::prelude::*;
use vstd::utf8::encode_utf8;

use crate::engine::session::text_of;
use crate::text::{
    decimal, decimal_reads_back, is_white_space, only_digits_make_a_number, parse_decimal, parsed,
    trim, trimmed, trimmed_is_empty_iff_blank, trimming_keeps_the_text,
};

verus! {

/// A directory under `/data/data`. Its name is absent where it is not UTF-8.
pub struct AppDir {
    pub name: Option<String>,
    /// For each directory under `files`, whether it holds the marker file; those behind the first
    /// that does may be left out. There are none where `files` cannot be read.
    pub markers: Vec<bool>,
}

/// Whether an app directory is GG's.
pub open spec fn is_marked(app: AppDir) -> bool {
    exists|i: int| 0 <= i < app.markers@.len() && #[trigger] app.markers@[i]
}

/// The name of the first app directory that is GG's.
pub open spec fn marked_package(apps: Seq<AppDir>) -> Option<Seq<char>>
    decreases apps.len(),
{
    if apps.len() == 0 {
        None
    } else if is_marked(apps.first()) {
        text_of(apps.first().name)
    } else {
        marked_package(apps.drop_first())
    }
}

/// Whether an app directory is GG's.
pub fn has_marker(app: &AppDir) -> (has: bool)
    ensures
        has == is_marked(*app),
{
    let mut i: usize = 0;
    while i < app.markers.len()
        invariant
            i <= app.markers.len(),
            forall|k: int| 0 <= k < i ==> !#[trigger] app.markers@[k],
        decreases app.markers.len() - i,
    {
        if app.markers[i] {
            return true;
        }
        i = i + 1;
    }
    false
}

/// GG's package name: `chosen` if it says anything, else the first app directory with the marker
/// file. `apps` is absent where `/data/data` cannot be read.
#[verifier::loop_isolation(false)]
pub fn find_package(chosen: Option<String>, apps: Option<Vec<AppDir>>) -> (package: Option<String>)
    ensures
        text_of(package) == if chosen matches Some(chosen) && chosen@.len() > 0 {
            text_of(chosen)
        } else {
            match apps {
                Some(apps) => marked_package(apps@),
                None => None,
            }
        },
{
    if let Some(chosen) = chosen {
        if !chosen.as_str().is_empty() {
            return Some(chosen);
        }
    }
    let apps = match apps {
        Some(apps) => apps,
        None => return None,
    };
    let mut i: usize = 0;
    proof {
        assert(apps@.skip(0) =~= apps@);
    }
    while i < apps.len()
        invariant
            i <= apps.len(),
            marked_package(apps@) == marked_package(apps@.skip(i as int)),
        decreases apps.len() - i,
    {
        proof {
            assert(apps@.skip(i as int).drop_first() =~= apps@.skip(i + 1));
        }
        if has_marker(&apps[i]) {
            return apps[i].name.clone();
        }
        i = i + 1;
    }
    None
}

/// The marker file of a directory under `files`.
pub enum Marker {
    Absent,
    Unreadable,
    Text(String),
}

/// What the first marker file that is there says, white space around it aside.
pub open spec fn marked_version(markers: Seq<Marker>) -> Option<Seq<char>>
    decreases markers.len(),
{
    if markers.len() == 0 {
        None
    } else {
        match markers.first() {
            Marker::Absent => marked_version(markers.drop_first()),
            Marker::Unreadable => None,
            Marker::Text(text) => Some(trimmed(text@)),
        }
    }
}

/// GG's version, such as `16142:101.1`. `markers` is absent where `files` cannot be read.
#[verifier::loop_isolation(false)]
pub fn version(markers: Option<Vec<Marker>>) -> (version: Option<String>)
    ensures
        text_of(version) == match markers {
            Some(markers) => marked_version(markers@),
            None => None,
        },
{
    let markers = match markers {
        Some(markers) => markers,
        None => return None,
    };
    let mut i: usize = 0;
    proof {
        assert(markers@.skip(0) =~= markers@);
    }
    while i < markers.len()
        invariant
            i <= markers.len(),
            marked_version(markers@) == marked_version(markers@.skip(i as int)),
        decreases markers.len() - i,
    {
        proof {
            assert(markers@.skip(i as int).drop_first() =~= markers@.skip(i + 1));
        }
        match &markers[i] {
            Marker::Absent => {},
            Marker::Unreadable => return None,
            Marker::Text(text) => return Some(trim(text.as_str()).to_owned()),
        }
        i = i + 1;
    }
    None
}

/// An entry of `/proc`. Its name is absent where it is not UTF-8, and its `cmdline` where that
/// cannot be read.
pub struct ProcEntry {
    pub name: Option<String>,
    pub cmdline: Option<Vec<u8>>,
}

/// A process's name: what its command line holds before the first NUL.
pub open spec fn process_name(cmdline: Seq<u8>) -> Seq<u8>
    decreases cmdline.len(),
{
    if cmdline.len() == 0 || cmdline.first() == 0 {
        Seq::empty()
    } else {
        seq![cmdline.first()] + process_name(cmdline.drop_first())
    }
}

/// The pid of an entry whose process is named `package`.
pub open spec fn pid_named(entry: ProcEntry, package: Seq<char>) -> Option<nat> {
    match (entry.name, entry.cmdline) {
        (Some(name), Some(cmdline)) => if process_name(cmdline@) == encode_utf8(package) {
            parsed(name@, u32::MAX as nat)
        } else {
            None
        },
        _ => None,
    }
}

/// The pid of the first process that is named `package`.
pub open spec fn first_pid_named(entries: Seq<ProcEntry>, package: Seq<char>) -> Option<nat>
    decreases entries.len(),
{
    if entries.len() == 0 {
        None
    } else if pid_named(entries.first(), package) is Some {
        pid_named(entries.first(), package)
    } else {
        first_pid_named(entries.drop_first(), package)
    }
}

/// Whether `name` is the process name in `cmdline`.
fn is_named(cmdline: &Vec<u8>, name: &[u8]) -> (is: bool)
    ensures
        is == (process_name(cmdline@) == name@),
{
    let mut i: usize = 0;
    proof {
        assert(cmdline@.skip(0) =~= cmdline@);
        assert(name@.take(0) + process_name(cmdline@) =~= process_name(cmdline@));
    }
    while i < cmdline.len() && cmdline[i] != 0
        invariant
            i <= cmdline.len(),
            i <= name.len(),
            process_name(cmdline@) == name@.take(i as int) + process_name(cmdline@.skip(i as int)),
        decreases cmdline.len() - i,
    {
        let ghost rest = cmdline@.skip(i as int);
        proof {
            assert(rest.drop_first() =~= cmdline@.skip(i + 1));
            assert(process_name(cmdline@)[i as int] == cmdline@[i as int]);
            assert(process_name(cmdline@).len() > i);
        }
        if i == name.len() || name[i] != cmdline[i] {
            return false;
        }
        proof {
            assert(process_name(cmdline@) =~= name@.take(i + 1) + process_name(
                cmdline@.skip(i + 1),
            ));
        }
        i = i + 1;
    }
    proof {
        assert(process_name(cmdline@.skip(i as int)) =~= Seq::<u8>::empty());
        assert(process_name(cmdline@) =~= name@.take(i as int));
        if i == name.len() {
            assert(name@.take(i as int) =~= name@);
        }
    }
    i == name.len()
}

/// The running pid of `package`: the first process of that name. `entries` is absent where
/// `/proc` cannot be read.
#[verifier::loop_isolation(false)]
pub fn find_pid(package: &str, entries: Option<Vec<ProcEntry>>) -> (pid: Option<u32>)
    ensures
        match entries {
            Some(entries) => match first_pid_named(entries@, package@) {
                Some(found) => pid matches Some(pid) && pid == found,
                None => pid is None,
            },
            None => pid is None,
        },
{
    let entries = match entries {
        Some(entries) => entries,
        None => return None,
    };
    let want = package.as_bytes();
    let mut i: usize = 0;
    proof {
        assert(entries@.skip(0) =~= entries@);
    }
    while i < entries.len()
        invariant
            i <= entries.len(),
            want@ == encode_utf8(package@),
            first_pid_named(entries@, package@) == first_pid_named(
                entries@.skip(i as int),
                package@,
            ),
        decreases entries.len() - i,
    {
        proof {
            assert(entries@.skip(i as int).drop_first() =~= entries@.skip(i + 1));
        }
        if let (Some(name), Some(cmdline)) = (&entries[i].name, &entries[i].cmdline) {
            if let Some(pid) = parse_decimal(name.as_str(), u32::MAX as u64) {
                if is_named(cmdline, want) {
                    return Some(pid as u32);
                }
            }
        }
        i = i + 1;
    }
    None
}

/// The package that is found is that of the first app directory with the marker file, and none
/// is found only where no app directory has it.
pub proof fn first_marked_app_is_gg(apps: Seq<AppDir>, at: int)
    requires
        0 <= at <= apps.len(),
        forall|i: int| 0 <= i < at ==> !is_marked(#[trigger] apps[i]),
    ensures
        at == apps.len() ==> marked_package(apps) is None,
        at < apps.len() && is_marked(apps[at]) ==> marked_package(apps) == text_of(apps[at].name),
    decreases apps.len(),
{
    if apps.len() > 0 && at > 0 {
        assert(!is_marked(apps[0]));
        let rest = apps.drop_first();
        assert forall|i: int| 0 <= i < at - 1 implies !is_marked(#[trigger] rest[i]) by {
            assert(rest[i] == apps[i + 1]);
        }
        first_marked_app_is_gg(rest, at - 1);
    }
}

/// The pid that is found is that of the first process of the name, and none is found only where
/// no process has it.
pub proof fn first_process_of_the_name_is_found(
    entries: Seq<ProcEntry>,
    package: Seq<char>,
    at: int,
)
    requires
        0 <= at <= entries.len(),
        forall|i: int| 0 <= i < at ==> pid_named(#[trigger] entries[i], package) is None,
    ensures
        at == entries.len() ==> first_pid_named(entries, package) is None,
        at < entries.len() && pid_named(entries[at], package) is Some ==> first_pid_named(
            entries,
            package,
        ) == pid_named(entries[at], package),
    decreases entries.len(),
{
    if entries.len() > 0 && at > 0 {
        assert(pid_named(entries[0], package) is None);
        let rest = entries.drop_first();
        assert forall|i: int| 0 <= i < at - 1 implies pid_named(
            #[trigger] rest[i],
            package,
        ) is None by {
            assert(rest[i] == entries[i + 1]);
        }
        first_process_of_the_name_is_found(rest, package, at - 1);
    }
}

/// Nothing after the first NUL of a command line bears on the process's name.
pub proof fn process_name_ends_at_nul(name: Seq<u8>, rest: Seq<u8>)
    requires
        forall|i: int| 0 <= i < name.len() ==> #[trigger] name[i] != 0,
    ensures
        process_name(name) == name,
        process_name(name.push(0) + rest) == name,
    decreases name.len(),
{
    if name.len() > 0 {
        let tail = name.drop_first();
        assert forall|i: int| 0 <= i < tail.len() implies #[trigger] tail[i] != 0 by {
            assert(tail[i] == name[i + 1]);
        }
        process_name_ends_at_nul(tail, rest);
        assert((name.push(0) + rest).drop_first() =~= tail.push(0) + rest);
        assert(seq![name[0]] + tail =~= name);
        assert((name.push(0) + rest).first() == name[0]);
        assert(name[0] != 0);
    } else {
        assert(process_name(name) =~= name);
        assert((name.push(0) + rest).first() == 0);
        assert(process_name(name.push(0) + rest) =~= name);
    }
}

/// A package that was chosen is taken as it is.
pub proof fn chosen_package_is_taken(
    chosen: String,
    apps: Option<Vec<AppDir>>,
    package: Option<String>,
)
    requires
        call_ensures(find_package, (Some(chosen), apps), package),
        chosen@.len() > 0,
    ensures
        package matches Some(found) && found@ == chosen@,
{
}

/// Without a choice, the package is the name, whole, of the first app directory in which some
/// directory holds the marker file, and there is none where no app directory has one.
pub proof fn package_is_the_first_with_the_marker(
    chosen: Option<String>,
    apps: Vec<AppDir>,
    package: Option<String>,
    unlisted: Option<String>,
    at: int,
    sub: int,
)
    requires
        call_ensures(find_package, (chosen, None::<Vec<AppDir>>), unlisted),
        call_ensures(find_package, (chosen, Some(apps)), package),
        chosen matches Some(text) ==> text@.len() == 0,
        0 <= at <= apps@.len(),
        forall|i: int, k: int|
            0 <= i < at && 0 <= k < apps@[i].markers@.len() ==> !#[trigger] apps@[i].markers@[k],
        at < apps@.len() ==> 0 <= sub < apps@[at].markers@.len() && apps@[at].markers@[sub],
    ensures
        unlisted is None,
        at == apps@.len() ==> package is None,
        at < apps@.len() ==> {
            &&& package is Some <==> apps@[at].name is Some
            &&& package is Some ==> package->0@ == apps@[at].name->0@
        },
{
    assert forall|i: int| 0 <= i < at implies !is_marked(#[trigger] apps@[i]) by {}
    if at < apps@.len() {
        assert(is_marked(apps@[at]));
    }
    first_marked_app_is_gg(apps@, at);
}

/// The version is what the first marker file that is there says, without the white space around
/// it; there is none where that file cannot be read or no directory has one.
pub proof fn version_is_what_the_marker_says(
    markers: Vec<Marker>,
    found: Option<String>,
    unlisted: Option<String>,
    at: int,
    before: Seq<char>,
    text: Seq<char>,
    after: Seq<char>,
)
    requires
        call_ensures(version, (Some(markers),), found),
        call_ensures(version, (None::<Vec<Marker>>,), unlisted),
        0 <= at <= markers@.len(),
        forall|i: int| 0 <= i < at ==> #[trigger] markers@[i] is Absent,
        forall|i: int| 0 <= i < before.len() ==> is_white_space(#[trigger] before[i]),
        forall|i: int| 0 <= i < after.len() ==> is_white_space(#[trigger] after[i]),
        text.len() > 0,
        !is_white_space(text[0]),
        !is_white_space(text[text.len() - 1]),
    ensures
        unlisted is None,
        at == markers@.len() ==> found is None,
        at < markers@.len() && markers@[at] is Unreadable ==> found is None,
        at < markers@.len() ==> (markers@[at] matches Marker::Text(held) ==> (held@ == before + text
            + after ==> (found matches Some(version) && version@ == text))),
        at < markers@.len() ==> (markers@[at] matches Marker::Text(held) ==> ((forall|i: int|
            0 <= i < held@.len() ==> is_white_space(#[trigger] held@[i])) ==> (
        found matches Some(version) && version@.len() == 0))),
{
    lemma_first_marker(markers@, at);
    if at < markers@.len() {
        if let Marker::Text(held) = markers@[at] {
            trimmed_is_empty_iff_blank(held@);
        }
    }
    trimming_keeps_the_text(before, text, after);
}

proof fn lemma_first_marker(markers: Seq<Marker>, at: int)
    requires
        0 <= at <= markers.len(),
        forall|i: int| 0 <= i < at ==> #[trigger] markers[i] is Absent,
    ensures
        at == markers.len() ==> marked_version(markers) is None,
        at < markers.len() && markers[at] is Unreadable ==> marked_version(markers) is None,
        at < markers.len() ==> (markers[at] matches Marker::Text(text) ==> marked_version(markers)
            == Some(trimmed(text@))),
    decreases markers.len(),
{
    if markers.len() > 0 && at > 0 {
        assert(markers[0] is Absent);
        let rest = markers.drop_first();
        assert forall|i: int| 0 <= i < at - 1 implies #[trigger] rest[i] is Absent by {
            assert(rest[i] == markers[i + 1]);
        }
        lemma_first_marker(rest, at - 1);
    }
}

/// Whether a command line is that of a process of this name: the name alone, or the name, a NUL
/// and anything.
pub open spec fn runs_as(cmdline: Seq<u8>, name: Seq<u8>) -> bool {
    ||| cmdline == name
    ||| exists|rest: Seq<u8>| #[trigger] (name.push(0) + rest) == cmdline
}

proof fn lemma_runs_as(cmdline: Seq<u8>, name: Seq<u8>)
    requires
        forall|i: int| 0 <= i < name.len() ==> #[trigger] name[i] != 0,
    ensures
        runs_as(cmdline, name) <==> process_name(cmdline) == name,
    decreases cmdline.len(),
{
    if runs_as(cmdline, name) {
        if cmdline == name {
            process_name_ends_at_nul(name, Seq::empty());
        } else {
            let rest = choose|rest: Seq<u8>| #[trigger] (name.push(0) + rest) == cmdline;
            process_name_ends_at_nul(name, rest);
        }
    }
    if process_name(cmdline) == name {
        if cmdline.len() == 0 {
            assert(cmdline =~= name);
        } else if cmdline.first() == 0 {
            let rest = cmdline.drop_first();
            assert(name.push(0) + rest =~= cmdline);
        } else {
            let tail = name.drop_first();
            let rest = cmdline.drop_first();
            assert(seq![cmdline.first()] + process_name(rest) == name);
            assert(tail =~= process_name(rest));
            assert(name[0] == cmdline[0]);
            assert forall|i: int| 0 <= i < tail.len() implies #[trigger] tail[i] != 0 by {
                assert(tail[i] == name[i + 1]);
            }
            lemma_runs_as(rest, tail);
            if rest == tail {
                assert(cmdline =~= name);
            } else {
                let more = choose|more: Seq<u8>| #[trigger] (tail.push(0) + more) == rest;
                let whole = name.push(0) + more;
                assert(whole.len() == cmdline.len());
                assert forall|i: int| 0 <= i < whole.len() implies whole[i] == cmdline[i] by {
                    if i > 0 {
                        assert(cmdline[i] == rest[i - 1]);
                        assert(whole[i] == (tail.push(0) + more)[i - 1]);
                    }
                }
                assert(whole =~= cmdline);
            }
        }
    }
}

/// The pid that is found is the number that names the first entry whose process runs under the
/// package's name, the whole of it, and there is none where no process does. Entries that are not
/// named by a number are no processes.
pub proof fn pid_is_that_of_the_first_process_of_the_name(
    package: &str,
    entries: Vec<ProcEntry>,
    pid: Option<u32>,
    unlisted: Option<u32>,
    at: int,
    number: u32,
)
    requires
        call_ensures(find_pid, (package, Some(entries)), pid),
        call_ensures(find_pid, (package, None::<Vec<ProcEntry>>), unlisted),
        forall|i: int|
            0 <= i < encode_utf8(package@).len() ==> #[trigger] encode_utf8(package@)[i] != 0,
        0 <= at <= entries@.len(),
        forall|i: int|
            #![trigger entries@[i]]
            0 <= i < at ==> {
                ||| entries@[i].cmdline is None
                ||| !runs_as(entries@[i].cmdline->0@, encode_utf8(package@))
                ||| entries@[i].name is None
                ||| entries@[i].name->0@.len() == 0
                ||| !('0' <= entries@[i].name->0@[0] <= '9') && entries@[i].name->0@[0] != '+'
            },
        at < entries@.len() ==> {
            &&& entries@[at].name matches Some(name) && name@ == decimal(number as nat)
            &&& entries@[at].cmdline matches Some(cmdline) && runs_as(
                cmdline@,
                encode_utf8(package@),
            )
        },
    ensures
        unlisted is None,
        at == entries@.len() ==> pid is None,
        at < entries@.len() ==> pid == Some(number),
{
    let want = encode_utf8(package@);
    assert forall|i: int| 0 <= i < at implies pid_named(
        #[trigger] entries@[i],
        package@,
    ) is None by {
        if entries@[i].cmdline is Some {
            lemma_runs_as(entries@[i].cmdline->0@, want);
        }
        if entries@[i].name is Some {
            let name = entries@[i].name->0@;
            if name.len() > 0 && !('0' <= name[0] <= '9') && name[0] != '+' {
                only_digits_make_a_number(name, 0, u32::MAX as nat);
            }
        }
    }
    if at < entries@.len() {
        lemma_runs_as(entries@[at].cmdline->0@, want);
        decimal_reads_back(number as nat, u32::MAX as nat);
        assert(pid_named(entries@[at], package@) == Some(number as nat));
    }
    first_process_of_the_name_is_found(entries@, package@, at);
}

/// An app directory is GG's exactly where some directory in it holds the marker file.
pub proof fn marker_makes_it_gg(app: AppDir, has: bool)
    requires
        call_ensures(has_marker, (&app,), has),
    ensures
        has <==> exists|i: int| 0 <= i < app.markers@.len() && #[trigger] app.markers@[i],
{
}

}
