//! The process table of the system: reading one process out of it, and
//! finding the shell among the descendants of a process.
//!
//! The table gives a line per process: the process id, the name of the
//! executable in parentheses, a letter for the state, the process id of the
//! parent, and more that is not read here. The name may itself hold spaces
//! and parentheses, so it is taken from the first opening to the last
//! closing parenthesis of the line.

use crate::text::{lemma_filter_keeps_members, str_eq};
use vstd::prelude::*;
use vstd::slice::{slice_subrange, slice_to_vec};

verus! {

/// The opening parenthesis.
pub const OPENING: u8 = 40;

/// The closing parenthesis.
pub const CLOSING: u8 = 41;

/// The index of the first `byte` at or after `from`; the length of `s`
/// where there is none.
pub open spec fn find_first(s: Seq<u8>, byte: u8, from: int) -> int
    decreases s.len() - from,
{
    if from < 0 || from >= s.len() || s[from] == byte {
        from
    } else {
        find_first(s, byte, from + 1)
    }
}

/// The index of the last `byte` of `s`; -1 where there is none.
pub open spec fn find_last(s: Seq<u8>, byte: u8) -> int
    decreases s.len(),
{
    if s.len() == 0 {
        -1
    } else if s.last() == byte {
        s.len() - 1
    } else {
        find_last(s.drop_last(), byte)
    }
}

/// True for the bytes that part the fields of a line: space, tab, line feed
/// and carriage return.
pub open spec fn is_space(byte: u8) -> bool {
    byte == 32 || byte == 9 || byte == 10 || byte == 13
}

/// The index of the first byte at or after `from` that parts no fields.
pub open spec fn skip_spaces(s: Seq<u8>, from: int) -> int
    decreases s.len() - from,
{
    if 0 <= from < s.len() && is_space(s[from]) {
        skip_spaces(s, from + 1)
    } else {
        from
    }
}

/// The index behind the field that starts at `from`.
pub open spec fn skip_field(s: Seq<u8>, from: int) -> int
    decreases s.len() - from,
{
    if 0 <= from < s.len() && !is_space(s[from]) {
        skip_field(s, from + 1)
    } else {
        from
    }
}

/// The number that decimal digits stand for; `None` for no digits and for
/// anything that is not a digit.
pub open spec fn number(digits: Seq<u8>) -> Option<nat>
    decreases digits.len(),
{
    if digits.len() == 0 || digits.last() < 48 || digits.last() > 57 {
        None
    } else if digits.len() == 1 {
        Some((digits.last() - 48) as nat)
    } else {
        match number(digits.drop_last()) {
            Some(n) => Some((n * 10 + (digits.last() - 48)) as nat),
            None => None,
        }
    }
}

/// The name of the executable and the process id of the parent in a line
/// of the process table; `None` for a line that lacks either.
pub open spec fn stat_fields(line: Seq<u8>) -> Option<(Seq<u8>, u32)> {
    let open = find_first(line, OPENING, 0);
    let close = find_last(line, CLOSING);
    if open < close {
        let state = skip_spaces(line, close + 1);
        let parent = skip_spaces(line, skip_field(line, state));
        match number(line.subrange(parent, skip_field(line, parent))) {
            Some(n) => if n <= u32::MAX {
                Some((line.subrange(open + 1, close), n as u32))
            } else {
                None
            },
            None => None,
        }
    } else {
        None
    }
}

/// Digits that stand for a number start with digits that stand for a
/// number no greater.
pub proof fn lemma_number_grows(digits: Seq<u8>, i: int)
    requires
        1 <= i <= digits.len(),
        number(digits) is Some,
    ensures
        number(digits.take(i)) is Some,
        number(digits.take(i))->0 <= number(digits)->0,
    decreases digits.len() - i,
{
    if i == digits.len() {
        assert(digits.take(i) =~= digits);
    } else {
        assert(digits.drop_last().take(i) =~= digits.take(i));
        lemma_number_grows(digits.drop_last(), i);
    }
}

fn first_at(s: &[u8], byte: u8) -> (r: usize)
    ensures
        r == find_first(s@, byte, 0),
        r <= s@.len(),
{
    let mut i: usize = 0;
    while i < s.len() && s[i] != byte
        invariant
            i <= s@.len(),
            find_first(s@, byte, 0) == find_first(s@, byte, i as int),
        decreases s@.len() - i,
    {
        i += 1;
    }
    i
}

/// The index of the last `byte`, counted from 1; 0 where there is none.
fn last_at(s: &[u8], byte: u8) -> (r: usize)
    ensures
        r == find_last(s@, byte) + 1,
        r <= s@.len(),
{
    let mut i: usize = s.len();
    proof {
        assert(s@.take(s@.len() as int) =~= s@);
    }
    while i > 0 && s[i - 1] != byte
        invariant
            i <= s@.len(),
            find_last(s@, byte) == find_last(s@.take(i as int), byte),
        decreases i,
    {
        proof {
            assert(s@.take(i as int).drop_last() =~= s@.take(i - 1));
            assert(s@.take(i as int).last() == s@[i - 1]);
        }
        i -= 1;
    }
    proof {
        if i > 0 {
            assert(s@.take(i as int).last() == s@[i - 1]);
        }
    }
    i
}

fn after_spaces(s: &[u8], from: usize) -> (r: usize)
    requires
        from <= s@.len(),
    ensures
        r == skip_spaces(s@, from as int),
        from <= r <= s@.len(),
{
    let mut i: usize = from;
    while i < s.len() && (s[i] == 32 || s[i] == 9 || s[i] == 10 || s[i] == 13)
        invariant
            from <= i <= s@.len(),
            skip_spaces(s@, from as int) == skip_spaces(s@, i as int),
        decreases s@.len() - i,
    {
        i += 1;
    }
    i
}

fn after_field(s: &[u8], from: usize) -> (r: usize)
    requires
        from <= s@.len(),
    ensures
        r == skip_field(s@, from as int),
        from <= r <= s@.len(),
{
    let mut i: usize = from;
    while i < s.len() && !(s[i] == 32 || s[i] == 9 || s[i] == 10 || s[i] == 13)
        invariant
            from <= i <= s@.len(),
            skip_field(s@, from as int) == skip_field(s@, i as int),
        decreases s@.len() - i,
    {
        i += 1;
    }
    i
}

/// Reads decimal digits as a number that fits 32 bits.
pub fn parse_number(digits: &[u8]) -> (r: Option<u32>)
    ensures
        r == match number(digits@) {
            Some(n) => if n <= u32::MAX {
                Some(n as u32)
            } else {
                None
            },
            None => None,
        },
{
    if digits.len() == 0 {
        return None;
    }
    let mut value: u64 = 0;
    let mut i: usize = 0;
    while i < digits.len()
        invariant
            i <= digits@.len(),
            value <= u32::MAX,
            i > 0 ==> number(digits@.take(i as int)) == Some(value as nat),
            i == 0 ==> value == 0,
        decreases digits@.len() - i,
    {
        let d = digits[i];
        proof {
            assert(digits@.take(i + 1).drop_last() =~= digits@.take(i as int));
            assert(digits@.take(i + 1).last() == d);
        }
        if d < 48 || d > 57 {
            proof {
                if number(digits@) is Some {
                    lemma_number_grows(digits@, i + 1);
                }
            }
            return None;
        }
        let next: u64 = value * 10 + (d - 48) as u64;
        if next > u32::MAX as u64 {
            proof {
                if number(digits@) is Some {
                    lemma_number_grows(digits@, i + 1);
                }
            }
            return None;
        }
        value = next;
        i += 1;
    }
    proof {
        assert(digits@.take(digits@.len() as int) =~= digits@);
    }
    Some(value as u32)
}

/// Reads the name of the executable and the process id of the parent from a
/// line of the process table.
pub fn parse_stat(line: &[u8]) -> (r: Option<(Vec<u8>, u32)>)
    ensures
        match r {
            Some(fields) => stat_fields(line@) == Some((fields.0@, fields.1)),
            None => stat_fields(line@) is None,
        },
{
    let open = first_at(line, OPENING);
    let close = last_at(line, CLOSING);
    if close == 0 || open >= close - 1 {
        return None;
    }
    let close = close - 1;
    let state = after_spaces(line, close + 1);
    let parent = after_spaces(line, after_field(line, state));
    let end = after_field(line, parent);
    match parse_number(slice_subrange(line, parent, end)) {
        Some(n) => Some((slice_to_vec(slice_subrange(line, open + 1, close)), n)),
        None => None,
    }
}

/// One process of a snapshot of the process table.
#[derive(Debug)]
pub struct ProcessInfo {
    pub pid: u32,
    /// The process id of the parent.
    pub parent: u32,
    /// The name of the executable.
    pub name: String,
}

/// What a [`ProcessInfo`] holds, as text and numbers.
pub struct ProcessView {
    pub pid: u32,
    pub parent: u32,
    pub name: Seq<char>,
}

impl View for ProcessInfo {
    type V = ProcessView;

    open spec fn view(&self) -> ProcessView {
        ProcessView { pid: self.pid, parent: self.parent, name: self.name@ }
    }
}

/// The views of a snapshot.
pub open spec fn process_views(snapshot: Seq<ProcessInfo>) -> Seq<ProcessView> {
    snapshot.map_values(|p: ProcessInfo| p@)
}

/// The names of executables that count as a shell.
pub open spec fn is_shell_name(name: Seq<char>) -> bool {
    name == "sh"@ || name == "bash"@ || name == "zsh"@ || name == "fish"@ || name == "dash"@ || name
        == "ksh"@ || name == "csh"@ || name == "tcsh"@
}

/// The test for a process whose parent is one of `level`.
pub open spec fn child_test(level: Seq<u32>) -> spec_fn(ProcessView) -> bool {
    |p: ProcessView| level.contains(p.parent)
}

/// The children of the processes of `level`, in the order of the snapshot.
pub open spec fn next_level(snapshot: Seq<ProcessView>, level: Seq<u32>) -> Seq<u32> {
    snapshot.filter(child_test(level)).map_values(|p: ProcessView| p.pid)
}

/// The first process of the snapshot that is a shell and a child of one of
/// `level`.
pub open spec fn first_shell(snapshot: Seq<ProcessView>, level: Seq<u32>) -> Option<u32>
    decreases snapshot.len(),
{
    if snapshot.len() == 0 {
        None
    } else if level.contains(snapshot.first().parent) && is_shell_name(snapshot.first().name) {
        Some(snapshot.first().pid)
    } else {
        first_shell(snapshot.drop_first(), level)
    }
}

/// The first shell met when the descendants of `level` are gone through
/// generation by generation, for at most `generations` generations.
pub open spec fn search_levels(snapshot: Seq<ProcessView>, level: Seq<u32>, generations: nat) -> Option<
    u32,
>
    decreases generations,
{
    if generations == 0 {
        None
    } else {
        match first_shell(snapshot, level) {
            Some(pid) => Some(pid),
            None => search_levels(snapshot, next_level(snapshot, level), (generations - 1) as nat),
        }
    }
}

/// The shell nearest to `root` among its descendants: the children are
/// looked at before the grandchildren, and so on; within a generation the
/// first of the snapshot wins. A snapshot of n processes is followed for n
/// generations.
pub open spec fn nearest_shell(snapshot: Seq<ProcessView>, root: u32) -> Option<u32> {
    search_levels(snapshot, seq![root], snapshot.len())
}

/// `pid` descends from one of `level` in `steps` generations.
pub open spec fn descends(snapshot: Seq<ProcessView>, level: Seq<u32>, pid: u32, steps: nat) -> bool
    decreases steps,
{
    if steps == 0 {
        level.contains(pid)
    } else {
        exists|j: int|
            0 <= j < snapshot.len() && (#[trigger] snapshot[j]).pid == pid && descends(
                snapshot,
                level,
                snapshot[j].parent,
                (steps - 1) as nat,
            )
    }
}

/// The process at index `j` of the snapshot has the name of a shell, and
/// its parent descends from one of `level` in `steps` generations.
pub open spec fn shell_at_index(snapshot: Seq<ProcessView>, level: Seq<u32>, steps: nat, j: int) -> bool {
    &&& 0 <= j < snapshot.len()
    &&& is_shell_name(snapshot[j].name)
    &&& descends(snapshot, level, snapshot[j].parent, steps)
}

/// Some shell has a parent that descends from one of `level` in `steps`
/// generations.
pub open spec fn shell_at(snapshot: Seq<ProcessView>, level: Seq<u32>, steps: nat) -> bool {
    exists|j: int| shell_at_index(snapshot, level, steps, j)
}

/// `pid` is a shell whose parent descends from one of `level` in `steps`
/// generations, and no shell is nearer.
pub open spec fn is_nearest(snapshot: Seq<ProcessView>, level: Seq<u32>, pid: u32, steps: nat) -> bool {
    &&& exists|j: int| #[trigger] shell_at_index(snapshot, level, steps, j) && snapshot[j].pid == pid
    &&& forall|nearer: nat| nearer < steps ==> !shell_at(snapshot, level, nearer)
}

/// What the first generation gives: a shell that is a child of one of
/// `level`, or nothing where no child is a shell.
pub proof fn lemma_first_shell(snapshot: Seq<ProcessView>, level: Seq<u32>)
    ensures
        match first_shell(snapshot, level) {
            Some(pid) => exists|j: int|
                #[trigger] shell_at_index(snapshot, level, 0, j) && snapshot[j].pid == pid,
            None => !shell_at(snapshot, level, 0),
        },
    decreases snapshot.len(),
{
    if snapshot.len() > 0 {
        let rest = snapshot.drop_first();
        if level.contains(snapshot.first().parent) && is_shell_name(snapshot.first().name) {
            assert(shell_at_index(snapshot, level, 0, 0));
        } else {
            lemma_first_shell(rest, level);
            match first_shell(rest, level) {
                Some(pid) => {
                    let j = choose|j: int| #[trigger] shell_at_index(rest, level, 0, j) && rest[j].pid == pid;
                    assert(snapshot[j + 1] == rest[j]);
                    assert(shell_at_index(snapshot, level, 0, j + 1));
                },
                None => {
                    assert forall|j: int| !shell_at_index(snapshot, level, 0, j) by {
                        if 0 < j < snapshot.len() {
                            assert(rest[j - 1] == snapshot[j]);
                            assert(!shell_at_index(rest, level, 0, j - 1));
                        }
                    }
                },
            }
        }
    }
}

/// The next generation holds exactly the children of `level`.
pub proof fn lemma_next_level(snapshot: Seq<ProcessView>, level: Seq<u32>, pid: u32)
    ensures
        next_level(snapshot, level).contains(pid) <==> descends(snapshot, level, pid, 1),
{
    let kept = snapshot.filter(child_test(level));
    if next_level(snapshot, level).contains(pid) {
        let i = choose|i: int|
            0 <= i < next_level(snapshot, level).len() && next_level(snapshot, level)[i] == pid;
        lemma_filter_keeps_members(snapshot, child_test(level), i);
        let j = choose|j: int| 0 <= j < snapshot.len() && snapshot[j] == kept[i];
        assert(snapshot[j].pid == pid);
        assert(descends(snapshot, level, snapshot[j].parent, 0));
    }
    if descends(snapshot, level, pid, 1) {
        let j = choose|j: int|
            0 <= j < snapshot.len() && (#[trigger] snapshot[j]).pid == pid && descends(
                snapshot,
                level,
                snapshot[j].parent,
                0,
            );
        snapshot.lemma_filter_contains(child_test(level), j);
        let k = choose|k: int| 0 <= k < kept.len() && kept[k] == snapshot[j];
        assert(next_level(snapshot, level)[k] == pid);
    }
}

/// To descend from the next generation is to descend from `level` in one
/// generation more.
pub proof fn lemma_descends_shift(snapshot: Seq<ProcessView>, level: Seq<u32>, pid: u32, steps: nat)
    ensures
        descends(snapshot, next_level(snapshot, level), pid, steps) <==> descends(
            snapshot,
            level,
            pid,
            steps + 1,
        ),
    decreases steps,
{
    let next = next_level(snapshot, level);
    if steps == 0 {
        lemma_next_level(snapshot, level, pid);
    } else {
        let before = (steps - 1) as nat;
        if descends(snapshot, next, pid, steps) {
            let j = choose|j: int|
                0 <= j < snapshot.len() && (#[trigger] snapshot[j]).pid == pid && descends(
                    snapshot,
                    next,
                    snapshot[j].parent,
                    before,
                );
            lemma_descends_shift(snapshot, level, snapshot[j].parent, before);
        }
        if descends(snapshot, level, pid, steps + 1) {
            let j = choose|j: int|
                0 <= j < snapshot.len() && (#[trigger] snapshot[j]).pid == pid && descends(
                    snapshot,
                    level,
                    snapshot[j].parent,
                    steps,
                );
            lemma_descends_shift(snapshot, level, snapshot[j].parent, before);
        }
    }
}

/// A shell below the next generation is a shell one generation further
/// below `level`.
pub proof fn lemma_shell_shift(snapshot: Seq<ProcessView>, level: Seq<u32>, steps: nat, j: int)
    ensures
        shell_at_index(snapshot, next_level(snapshot, level), steps, j) <==> shell_at_index(
            snapshot,
            level,
            steps + 1,
            j,
        ),
{
    if 0 <= j < snapshot.len() {
        lemma_descends_shift(snapshot, level, snapshot[j].parent, steps);
    }
}

/// What a search gives is a nearest shell; where it gives nothing, no shell
/// is within the generations that were searched.
pub proof fn lemma_search_levels(snapshot: Seq<ProcessView>, level: Seq<u32>, generations: nat)
    ensures
        match search_levels(snapshot, level, generations) {
            Some(pid) => exists|steps: nat|
                steps < generations && #[trigger] is_nearest(snapshot, level, pid, steps),
            None => forall|steps: nat| steps < generations ==> !shell_at(snapshot, level, steps),
        },
    decreases generations,
{
    if generations > 0 {
        lemma_first_shell(snapshot, level);
        match first_shell(snapshot, level) {
            Some(pid) => {
                assert(is_nearest(snapshot, level, pid, 0));
            },
            None => {
                let next = next_level(snapshot, level);
                let left = (generations - 1) as nat;
                lemma_search_levels(snapshot, next, left);
                assert forall|steps: nat, j: int|
                    shell_at_index(snapshot, next, steps, j) <==> shell_at_index(
                        snapshot,
                        level,
                        steps + 1,
                        j,
                    ) by {
                    lemma_shell_shift(snapshot, level, steps, j);
                }
                assert forall|steps: nat| steps > 0 implies (shell_at(snapshot, level, steps) <==> shell_at(
                    snapshot,
                    next,
                    (steps - 1) as nat,
                )) by {
                    let before = (steps - 1) as nat;
                    if shell_at(snapshot, level, steps) {
                        let j = choose|j: int| shell_at_index(snapshot, level, steps, j);
                        assert(shell_at_index(snapshot, level, before + 1, j));
                        assert(shell_at_index(snapshot, next, before, j));
                    }
                    if shell_at(snapshot, next, before) {
                        let j = choose|j: int| shell_at_index(snapshot, next, before, j);
                        assert(shell_at_index(snapshot, level, before + 1, j));
                    }
                }
                match search_levels(snapshot, next, left) {
                    Some(pid) => {
                        let steps = choose|steps: nat|
                            steps < left && #[trigger] is_nearest(snapshot, next, pid, steps);
                        let j = choose|j: int|
                            #[trigger] shell_at_index(snapshot, next, steps, j) && snapshot[j].pid == pid;
                        assert(shell_at_index(snapshot, level, steps + 1, j));
                        assert forall|nearer: nat| nearer < steps + 1 implies !shell_at(
                            snapshot,
                            level,
                            nearer,
                        ) by {
                            if nearer > 0 {
                                assert(!shell_at(snapshot, next, (nearer - 1) as nat));
                            }
                        }
                        assert(is_nearest(snapshot, level, pid, steps + 1));
                    },
                    None => {
                        assert forall|steps: nat| steps < generations implies !shell_at(
                            snapshot,
                            level,
                            steps,
                        ) by {
                            if steps > 0 {
                                assert(!shell_at(snapshot, next, (steps - 1) as nat));
                            }
                        }
                    },
                }
            },
        }
    }
}

/// True for the name of a shell.
pub fn shell_name(name: &str) -> (r: bool)
    ensures
        r == is_shell_name(name@),
{
    str_eq(name, "sh") || str_eq(name, "bash") || str_eq(name, "zsh") || str_eq(name, "fish") || str_eq(
        name,
        "dash",
    ) || str_eq(name, "ksh") || str_eq(name, "csh") || str_eq(name, "tcsh")
}

fn contains_pid(level: &Vec<u32>, pid: u32) -> (r: bool)
    ensures
        r == level@.contains(pid),
{
    let mut i: usize = 0;
    while i < level.len()
        invariant
            i <= level@.len(),
            forall|j: int| 0 <= j < i ==> level@[j] != pid,
        decreases level@.len() - i,
    {
        if level[i] == pid {
            return true;
        }
        i += 1;
    }
    false
}

fn find_first_shell(snapshot: &Vec<ProcessInfo>, level: &Vec<u32>) -> (r: Option<u32>)
    ensures
        r == first_shell(process_views(snapshot@), level@),
{
    let ghost all = process_views(snapshot@);
    let mut i: usize = 0;
    proof {
        assert(all.skip(0) =~= all);
    }
    while i < snapshot.len()
        invariant
            i <= snapshot@.len(),
            all == process_views(snapshot@),
            first_shell(all, level@) == first_shell(all.skip(i as int), level@),
        decreases snapshot@.len() - i,
    {
        proof {
            assert(all.skip(i as int).first() == snapshot@[i as int]@);
            assert(all.skip(i as int).drop_first() =~= all.skip(i + 1));
        }
        if contains_pid(level, snapshot[i].parent) && shell_name(snapshot[i].name.as_str()) {
            return Some(snapshot[i].pid);
        }
        i += 1;
    }
    None
}

fn children_of(snapshot: &Vec<ProcessInfo>, level: &Vec<u32>) -> (r: Vec<u32>)
    ensures
        r@ == next_level(process_views(snapshot@), level@),
{
    let ghost all = process_views(snapshot@);
    let ghost test = child_test(level@);
    let ghost pid_of = |p: ProcessView| p.pid;
    let mut r: Vec<u32> = Vec::new();
    let mut i: usize = 0;
    proof {
        reveal(Seq::filter);
        assert(all.take(0) =~= Seq::<ProcessView>::empty());
        assert(r@ =~= all.take(0).filter(test).map_values(pid_of));
    }
    while i < snapshot.len()
        invariant
            i <= snapshot@.len(),
            all == process_views(snapshot@),
            test == child_test(level@),
            pid_of == |p: ProcessView| p.pid,
            r@ == all.take(i as int).filter(test).map_values(pid_of),
        decreases snapshot@.len() - i,
    {
        proof {
            assert(all.take(i + 1) =~= all.take(i as int).push(snapshot@[i as int]@));
            all.take(i as int).lemma_filter_push(snapshot@[i as int]@, test);
            let kept = all.take(i as int).filter(test);
            assert(kept.push(snapshot@[i as int]@).map_values(pid_of) =~= kept.map_values(pid_of).push(
                snapshot@[i as int].pid,
            ));
        }
        if contains_pid(level, snapshot[i].parent) {
            r.push(snapshot[i].pid);
        }
        i += 1;
    }
    proof {
        assert(all.take(all.len() as int) =~= all);
    }
    r
}

/// Finds the shell among the descendants of `root`: a nearest one, and
/// within a generation the first of the snapshot. A snapshot of n processes
/// is followed for n generations; where nothing is found, no shell is within
/// them.
pub fn find_shell(snapshot: &Vec<ProcessInfo>, root: u32) -> (r: Option<u32>)
    ensures
        r == nearest_shell(process_views(snapshot@), root),
        match r {
            Some(pid) => exists|steps: nat|
                steps < snapshot@.len() && #[trigger] is_nearest(
                    process_views(snapshot@),
                    seq![root],
                    pid,
                    steps,
                ),
            None => forall|steps: nat|
                steps < snapshot@.len() ==> !shell_at(process_views(snapshot@), seq![root], steps),
        },
{
    let ghost all = process_views(snapshot@);
    let mut level: Vec<u32> = Vec::new();
    level.push(root);
    assert(level@ =~= seq![root]);
    proof {
        lemma_search_levels(all, seq![root], all.len());
    }
    let mut left: usize = snapshot.len();
    while left > 0
        invariant
            all == process_views(snapshot@),
            nearest_shell(all, root) == search_levels(all, level@, left as nat),
            match nearest_shell(all, root) {
                Some(pid) => exists|steps: nat|
                    steps < all.len() && #[trigger] is_nearest(all, seq![root], pid, steps),
                None => forall|steps: nat| steps < all.len() ==> !shell_at(all, seq![root], steps),
            },
        decreases left,
    {
        match find_first_shell(snapshot, &level) {
            Some(pid) => {
                return Some(pid);
            },
            None => {
                level = children_of(snapshot, &level);
                left -= 1;
            },
        }
    }
    None
}

} // verus!
