//! Which filesystem entries a watchlist covers, and how large its kernel map has to be.

use crate::text::{chars_of, same_text};
use vstd::prelude::*;

verus! {

/// The deepest level at which an entry is covered, and to which a directory scan descends.
pub const MAX_SCAN_DEPTH: usize = 20;

/// The floor of a watchlist of opted-in binaries.
pub const MIN_WATCHLIST_CAPACITY: u32 = 2048;

/// What a watchlist is made of.
#[derive(Clone, Copy, PartialEq, Eq, Structural)]
pub enum EntryType {
    /// Regular files.
    File,
    /// Directories.
    Directory,
}

/// What a directory scan found an entry to be, without following links.
#[derive(Clone, Copy, PartialEq, Eq, Structural)]
pub enum FoundType {
    /// A regular file.
    File,
    /// A directory.
    Directory,
    /// Anything else: a link, a socket, a device.
    Other,
}

/// One entry of a directory scan. The entries of a scan come in the order in which it visits
/// them, each directory before what it holds; scans of several roots follow one another.
pub struct ScanEntry {
    /// How far below the root of its scan the entry lies; the root itself is at zero.
    pub depth: usize,
    /// The last component of its path.
    pub name: String,
    /// What it is.
    pub found: FoundType,
}

/// Whether hidden entries are left out, and which of them are not.
pub struct HiddenRule<'a> {
    /// Leave out entries whose name starts with a dot.
    pub ignore_hidden: bool,
    /// The hidden names that stay in.
    pub allow_hidden: &'a [&'a str],
}

/// The views of a list of string slices.
pub open spec fn slice_texts(v: Seq<&str>) -> Seq<Seq<char>> {
    v.map_values(|s: &str| s@)
}

impl<'a> HiddenRule<'a> {
    /// Whether a scan lets an entry of this name in.
    pub open spec fn admits_name(&self, name: Seq<char>) -> bool {
        ||| !self.ignore_hidden
        ||| name.len() == 0
        ||| name[0] != '.'
        ||| slice_texts(self.allow_hidden@).contains(name)
    }

    /// Whether a scan lets an entry of this name in, and descends into it.
    pub fn admits(&self, name: &str) -> (r: bool)
        ensures
            r == self.admits_name(name@),
    {
        if !self.ignore_hidden {
            return true;
        }
        let chars = chars_of(name);
        if chars.len() == 0 || chars[0] != '.' {
            return true;
        }
        let mut i: usize = 0;
        while i < self.allow_hidden.len()
            invariant
                i <= self.allow_hidden@.len(),
                forall|k: int| 0 <= k < i ==> (#[trigger] self.allow_hidden@[k])@ != name@,
            decreases self.allow_hidden@.len() - i,
        {
            if same_text(self.allow_hidden[i], name) {
                assert(slice_texts(self.allow_hidden@)[i as int] == name@);
                return true;
            }
            i = i + 1;
        }
        proof {
            if slice_texts(self.allow_hidden@).contains(name@) {
                let k = choose|k: int|
                    0 <= k < slice_texts(self.allow_hidden@).len() && slice_texts(
                        self.allow_hidden@,
                    )[k] == name@;
                assert(self.allow_hidden@[k]@ == name@);
            }
        }
        false
    }
}

/// Whether entry `j` of a scan is entry `i` or a directory that encloses it.
pub open spec fn encloses(scan: Seq<ScanEntry>, j: int, i: int) -> bool {
    &&& 0 <= j <= i < scan.len()
    &&& forall|k: int| j < k <= i ==> (#[trigger] scan[k]).depth > scan[j].depth
}

/// Whether a scan that skips what the rule rejects still reaches entry `i`.
pub open spec fn reached(scan: Seq<ScanEntry>, rule: HiddenRule, i: int) -> bool {
    forall|j: int| #[trigger] encloses(scan, j, i) ==> rule.admits_name(scan[j].name@)
}

/// Whether an entry is of the type that a watchlist is made of.
pub open spec fn is_of_type(found: FoundType, wanted: EntryType) -> bool {
    match wanted {
        EntryType::File => found == FoundType::File,
        EntryType::Directory => found == FoundType::Directory,
    }
}

/// Whether a watchlist could hold an entry: one of the right type that is not too deep.
pub open spec fn eligible(entry: ScanEntry, wanted: EntryType) -> bool {
    is_of_type(entry.found, wanted) && entry.depth <= MAX_SCAN_DEPTH
}

/// Whether the watchlist covers entry `i`.
pub open spec fn covered(scan: Seq<ScanEntry>, wanted: EntryType, rule: HiddenRule, i: int) -> bool {
    reached(scan, rule, i) && eligible(scan[i], wanted)
}

/// The positions below `n` of the entries that the watchlist covers, in order.
pub open spec fn coverage(
    scan: Seq<ScanEntry>,
    wanted: EntryType,
    rule: HiddenRule,
    n: nat,
) -> Seq<usize>
    decreases n,
{
    if n == 0 {
        Seq::empty()
    } else {
        let earlier = coverage(scan, wanted, rule, (n - 1) as nat);
        if covered(scan, wanted, rule, n - 1) {
            earlier.push((n - 1) as usize)
        } else {
            earlier
        }
    }
}

/// The map size for `count` entries: a quarter more, but no less than `min_capacity`.
pub open spec fn capacity_for(count: nat, min_capacity: u32) -> nat {
    if count * 5 / 4 > min_capacity {
        count * 5 / 4
    } else {
        min_capacity as nat
    }
}

fn type_matches(found: FoundType, wanted: EntryType) -> (r: bool)
    ensures
        r == is_of_type(found, wanted),
{
    match wanted {
        EntryType::File => found == FoundType::File,
        EntryType::Directory => found == FoundType::Directory,
    }
}

/// Whether entry `j` still encloses whatever entry comes at position `i`, as far as the entries
/// between them tell.
spec fn open_at(scan: Seq<ScanEntry>, j: int, i: int) -> bool {
    forall|k: int| j < k < i ==> (#[trigger] scan[k]).depth > scan[j].depth
}

/// The state of a scan before position `i`: `barrier` is the depth of a rejected entry that the
/// scan is still inside of, where there is one.
spec fn barrier_holds(
    scan: Seq<ScanEntry>,
    rule: HiddenRule,
    i: int,
    barrier: Option<usize>,
) -> bool {
    match barrier {
        None => forall|j: int|
            0 <= j < i && #[trigger] open_at(scan, j, i) ==> rule.admits_name(scan[j].name@),
        Some(d) => {
            &&& exists|j: int|
                0 <= j < i && #[trigger] open_at(scan, j, i) && scan[j].depth == d
                    && !rule.admits_name(scan[j].name@)
            &&& forall|j: int|
                0 <= j < i && #[trigger] open_at(scan, j, i) && !rule.admits_name(scan[j].name@)
                    ==> scan[j].depth >= d
        },
    }
}

/// One entry further along a scan: whether it is reached, and the state after it.
fn advance(scan: &[ScanEntry], rule: &HiddenRule<'_>, i: usize, barrier: Option<usize>) -> (r: (
    bool,
    Option<usize>,
))
    requires
        i < scan@.len(),
        barrier_holds(scan@, *rule, i as int, barrier),
    ensures
        r.0 == reached(scan@, *rule, i as int),
        barrier_holds(scan@, *rule, i + 1, r.1),
{
    let depth: usize = scan[i].depth;
    let ghost s = scan@;
    let ghost here = i as int;
    assert forall|j: int| 0 <= j <= here && open_at(s, j, here + 1) && j != here implies open_at(
        s,
        j,
        here,
    ) && depth > s[j].depth by {
        assert(s[here].depth > s[j].depth);
    }
    assert forall|j: int| encloses(s, j, here) implies open_at(s, j, here + 1) by {}
    assert(encloses(s, here, here));
    assert(open_at(s, here, here + 1));
    let inside = match barrier {
        Some(d) => depth > d,
        None => false,
    };
    if inside {
        proof {
            let d = barrier->0;
            let j = choose|j: int|
                0 <= j < here && #[trigger] open_at(s, j, here) && s[j].depth == d
                    && !rule.admits_name(s[j].name@);
            assert(encloses(s, j, here));
            assert(open_at(s, j, here + 1));
            assert forall|m: int|
                0 <= m < here + 1 && #[trigger] open_at(s, m, here + 1) && !rule.admits_name(
                    s[m].name@,
                ) implies s[m].depth >= d by {
                if m != here {
                    assert(open_at(s, m, here));
                }
            }
        }
        return (false, barrier);
    }
    assert forall|j: int| 0 <= j < here && open_at(s, j, here + 1) implies rule.admits_name(
        s[j].name@,
    ) by {
        assert(open_at(s, j, here));
    }
    if rule.admits(scan[i].name.as_str()) {
        (true, None)
    } else {
        (false, Some(depth))
    }
}

/// The positions of the entries that the watchlist covers.
pub fn select_entries(scan: &[ScanEntry], wanted: EntryType, rule: &HiddenRule<'_>) -> (r: Vec<
    usize,
>)
    ensures
        r@ == coverage(scan@, wanted, *rule, scan@.len()),
{
    let mut out: Vec<usize> = Vec::new();
    let mut barrier: Option<usize> = None;
    let mut i: usize = 0;
    while i < scan.len()
        invariant
            i <= scan@.len(),
            out@ == coverage(scan@, wanted, *rule, i as nat),
            barrier_holds(scan@, *rule, i as int, barrier),
        decreases scan@.len() - i,
    {
        let (hit, next) = advance(scan, rule, i, barrier);
        if hit && scan[i].depth <= MAX_SCAN_DEPTH && type_matches(scan[i].found, wanted) {
            out.push(i);
        }
        barrier = next;
        i = i + 1;
    }
    out
}

/// The size of the kernel map for a watchlist over the scanned entries, in the model.
pub open spec fn dynamic_capacity(
    scan: Seq<ScanEntry>,
    entry_type: EntryType,
    min_capacity: u32,
    ignore_hidden: bool,
    allow_hidden: &[&str],
) -> nat {
    capacity_for(
        coverage(scan, entry_type, HiddenRule { ignore_hidden, allow_hidden }, scan.len()).len(),
        min_capacity,
    )
}

/// The size of the kernel map for a watchlist over the scanned entries: the number of entries
/// that it covers and a quarter more, but no less than `min_capacity`.
pub fn calculate_dynamic_capacity(
    scan: &[ScanEntry],
    entry_type: EntryType,
    min_capacity: u32,
    ignore_hidden: bool,
    allow_hidden: &[&str],
) -> (r: u32)
    requires
        coverage(
            scan@,
            entry_type,
            (HiddenRule { ignore_hidden, allow_hidden }),
            scan@.len(),
        ).len() <= i32::MAX,
    ensures
        r == dynamic_capacity(scan@, entry_type, min_capacity, ignore_hidden, allow_hidden),
{
    let rule = HiddenRule { ignore_hidden, allow_hidden };
    let selected = select_entries(scan, entry_type, &rule);
    let wanted: u64 = selected.len() as u64 * 5 / 4;
    if wanted > min_capacity as u64 {
        wanted as u32
    } else {
        min_capacity
    }
}

/// How many regular files were scanned that are not too deep.
pub fn count_files(scan: &[ScanEntry]) -> (r: usize)
    ensures
        r == files_in(scan@, scan@.len()),
{
    let mut count: usize = 0;
    let mut i: usize = 0;
    while i < scan.len()
        invariant
            i <= scan@.len(),
            count == files_in(scan@, i as nat),
            count <= i,
        decreases scan@.len() - i,
    {
        if scan[i].found == FoundType::File && scan[i].depth <= MAX_SCAN_DEPTH {
            count = count + 1;
        }
        i = i + 1;
    }
    count
}

/// The size of the kernel map for a watchlist of opted-in binaries: every scanned file could opt
/// in.
pub fn calculate_watchlist_capacity(scan: &[ScanEntry]) -> (r: u32)
    requires
        files_in(scan@, scan@.len()) <= i32::MAX,
    ensures
        r == capacity_for(files_in(scan@, scan@.len()), MIN_WATCHLIST_CAPACITY),
{
    let wanted: u64 = count_files(scan) as u64 * 5 / 4;
    if wanted > MIN_WATCHLIST_CAPACITY as u64 {
        wanted as u32
    } else {
        MIN_WATCHLIST_CAPACITY
    }
}

/// How many of the first `n` entries are regular files that are not too deep.
pub open spec fn files_in(scan: Seq<ScanEntry>, n: nat) -> nat
    decreases n,
{
    if n == 0 {
        0
    } else {
        files_in(scan, (n - 1) as nat) + if eligible(scan[n - 1], EntryType::File) {
            1nat
        } else {
            0nat
        }
    }
}

/// A map never comes out smaller than the watchlist it has to hold, nor than its floor.
pub proof fn law_capacity_suffices(count: nat, min_capacity: u32)
    ensures
        capacity_for(count, min_capacity) >= count,
        capacity_for(count, min_capacity) >= min_capacity,
{
}

/// The coverage of a scan lists exactly the covered positions.
pub proof fn law_coverage_is_exact(
    scan: Seq<ScanEntry>,
    wanted: EntryType,
    rule: HiddenRule,
    i: usize,
)
    requires
        scan.len() <= usize::MAX,
    ensures
        coverage(scan, wanted, rule, scan.len()).contains(i) <==> i < scan.len() && covered(
            scan,
            wanted,
            rule,
            i as int,
        ),
{
    lemma_coverage_contains(scan, wanted, rule, scan.len(), i);
}

proof fn lemma_coverage_contains(
    scan: Seq<ScanEntry>,
    wanted: EntryType,
    rule: HiddenRule,
    n: nat,
    i: usize,
)
    requires
        n <= usize::MAX,
    ensures
        coverage(scan, wanted, rule, n).contains(i) <==> i < n && covered(
            scan,
            wanted,
            rule,
            i as int,
        ),
    decreases n,
{
    if n > 0 {
        lemma_coverage_contains(scan, wanted, rule, (n - 1) as nat, i);
        let earlier = coverage(scan, wanted, rule, (n - 1) as nat);
        let all = coverage(scan, wanted, rule, n);
        if covered(scan, wanted, rule, n - 1) {
            assert(all == earlier.push((n - 1) as usize));
            assert(all[earlier.len() as int] == (n - 1) as usize);
            if earlier.contains(i) {
                let k = choose|k: int| 0 <= k < earlier.len() && earlier[k] == i;
                assert(all[k] == i);
            }
            if all.contains(i) && i != n - 1 {
                let k = choose|k: int| 0 <= k < all.len() && all[k] == i;
                assert(earlier[k] == i);
            }
        }
    }
}

/// Nothing below the deepest level is covered, however a scan came to list it.
pub proof fn law_depth_is_bounded(
    scan: Seq<ScanEntry>,
    wanted: EntryType,
    rule: HiddenRule,
    i: usize,
)
    requires
        scan.len() <= usize::MAX,
        coverage(scan, wanted, rule, scan.len()).contains(i),
    ensures
        i < scan.len(),
        scan[i as int].depth <= MAX_SCAN_DEPTH,
{
    law_coverage_is_exact(scan, wanted, rule, i);
}

/// Nothing below a rejected directory is covered.
pub proof fn law_rejected_directory_hides_its_contents(
    scan: Seq<ScanEntry>,
    wanted: EntryType,
    rule: HiddenRule,
    j: int,
    i: usize,
)
    requires
        scan.len() <= usize::MAX,
        encloses(scan, j, i as int),
        !rule.admits_name(scan[j].name@),
    ensures
        !coverage(scan, wanted, rule, scan.len()).contains(i),
{
    law_coverage_is_exact(scan, wanted, rule, i);
}

/// The entries of the first `n` that a scan reaches when it skips what the rule rejects.
pub open spec fn reached_entries(scan: Seq<ScanEntry>, rule: HiddenRule, n: nat) -> Seq<ScanEntry>
    decreases n,
{
    if n == 0 {
        Seq::empty()
    } else {
        let earlier = reached_entries(scan, rule, (n - 1) as nat);
        if reached(scan, rule, n - 1) {
            earlier.push(scan[n - 1])
        } else {
            earlier
        }
    }
}

/// A scan that already skipped what the rule rejects yields the same map size as a full one.
pub proof fn law_skipping_early_changes_nothing(
    scan: Seq<ScanEntry>,
    wanted: EntryType,
    rule: HiddenRule,
)
    ensures
        ({
            let skipped = reached_entries(scan, rule, scan.len());
            coverage(skipped, wanted, rule, skipped.len()).len() == coverage(
                scan,
                wanted,
                rule,
                scan.len(),
            ).len()
        }),
{
    lemma_reached_entries(scan, wanted, rule, scan.len());
    let skipped = reached_entries(scan, rule, scan.len());
    lemma_all_admitted_all_reached(skipped, wanted, rule, skipped.len());
}

spec fn of_type_in(scan: Seq<ScanEntry>, wanted: EntryType, n: nat) -> nat
    decreases n,
{
    if n == 0 {
        0
    } else {
        of_type_in(scan, wanted, (n - 1) as nat) + if eligible(scan[n - 1], wanted) {
            1nat
        } else {
            0nat
        }
    }
}

proof fn lemma_of_type_prefix(a: Seq<ScanEntry>, b: Seq<ScanEntry>, wanted: EntryType, n: nat)
    requires
        n <= a.len(),
        n <= b.len(),
        a.take(n as int) == b.take(n as int),
    ensures
        of_type_in(a, wanted, n) == of_type_in(b, wanted, n),
    decreases n,
{
    if n > 0 {
        assert(a.take(n as int)[n - 1] == a[n - 1]);
        assert(b.take(n as int)[n - 1] == b[n - 1]);
        assert(a.take(n - 1) =~= a.take(n as int).take(n - 1));
        assert(b.take(n - 1) =~= b.take(n as int).take(n - 1));
        lemma_of_type_prefix(a, b, wanted, (n - 1) as nat);
    }
}

proof fn lemma_reached_entries(scan: Seq<ScanEntry>, wanted: EntryType, rule: HiddenRule, n: nat)
    requires
        n <= scan.len(),
    ensures
        forall|i: int|
            0 <= i < reached_entries(scan, rule, n).len() ==> rule.admits_name(
                (#[trigger] reached_entries(scan, rule, n)[i]).name@,
            ),
        of_type_in(reached_entries(scan, rule, n), wanted, reached_entries(scan, rule, n).len())
            == coverage(scan, wanted, rule, n).len(),
    decreases n,
{
    if n > 0 {
        lemma_reached_entries(scan, wanted, rule, (n - 1) as nat);
        let earlier = reached_entries(scan, rule, (n - 1) as nat);
        let all = reached_entries(scan, rule, n);
        if reached(scan, rule, n - 1) {
            assert(encloses(scan, n - 1, n - 1));
            assert(all.take(earlier.len() as int) =~= earlier.take(earlier.len() as int));
            lemma_of_type_prefix(all, earlier, wanted, earlier.len());
        }
    }
}

proof fn lemma_all_admitted_all_reached(
    scan: Seq<ScanEntry>,
    wanted: EntryType,
    rule: HiddenRule,
    n: nat,
)
    requires
        n <= scan.len(),
        forall|i: int| 0 <= i < scan.len() ==> rule.admits_name((#[trigger] scan[i]).name@),
    ensures
        coverage(scan, wanted, rule, n).len() == of_type_in(scan, wanted, n),
    decreases n,
{
    if n > 0 {
        lemma_all_admitted_all_reached(scan, wanted, rule, (n - 1) as nat);
    }
}

proof fn lemma_coverage_grows(
    scan: Seq<ScanEntry>,
    wanted: EntryType,
    narrow: HiddenRule,
    wide: HiddenRule,
    n: nat,
)
    requires
        n <= scan.len(),
        forall|name: Seq<char>| #[trigger] narrow.admits_name(name) ==> wide.admits_name(name),
    ensures
        coverage(scan, wanted, narrow, n).len() <= coverage(scan, wanted, wide, n).len(),
    decreases n,
{
    if n > 0 {
        lemma_coverage_grows(scan, wanted, narrow, wide, (n - 1) as nat);
        if reached(scan, narrow, n - 1) {
            assert(reached(scan, wide, n - 1)) by {
                assert forall|j: int| #[trigger] encloses(scan, j, n - 1) implies wide.admits_name(
                    scan[j].name@,
                ) by {
                    assert(narrow.admits_name(scan[j].name@));
                }
            }
        }
    }
}

/// Rules that admit the same names cover equally many entries.
pub proof fn lemma_same_rule_same_count(
    scan: Seq<ScanEntry>,
    wanted: EntryType,
    a: HiddenRule,
    b: HiddenRule,
)
    requires
        a.ignore_hidden == b.ignore_hidden,
        a.allow_hidden@ == b.allow_hidden@,
    ensures
        coverage(scan, wanted, a, scan.len()).len() == coverage(scan, wanted, b, scan.len()).len(),
{
    lemma_coverage_grows(scan, wanted, a, b, scan.len());
    lemma_coverage_grows(scan, wanted, b, a, scan.len());
}

/// The size of a map grows with the hidden names that are allowed, is largest where hidden entries
/// are not left out at all, does then not depend on the allowed names, and never falls below its
/// floor.
pub proof fn law_capacity_grows_with_the_rule(
    scan: Seq<ScanEntry>,
    entry_type: EntryType,
    min_capacity: u32,
    few: &[&str],
    many: &[&str],
)
    requires
        forall|name: Seq<char>| #[trigger]
            slice_texts(few@).contains(name) ==> slice_texts(many@).contains(name),
    ensures
        min_capacity <= dynamic_capacity(scan, entry_type, min_capacity, true, few),
        dynamic_capacity(scan, entry_type, min_capacity, true, few) <= dynamic_capacity(
            scan,
            entry_type,
            min_capacity,
            true,
            many,
        ),
        dynamic_capacity(scan, entry_type, min_capacity, true, many) <= dynamic_capacity(
            scan,
            entry_type,
            min_capacity,
            false,
            many,
        ),
        dynamic_capacity(scan, entry_type, min_capacity, false, few) == dynamic_capacity(
            scan,
            entry_type,
            min_capacity,
            false,
            many,
        ),
{
    let hiding_few = HiddenRule { ignore_hidden: true, allow_hidden: few };
    let hiding_many = HiddenRule { ignore_hidden: true, allow_hidden: many };
    let open_few = HiddenRule { ignore_hidden: false, allow_hidden: few };
    let open_many = HiddenRule { ignore_hidden: false, allow_hidden: many };
    lemma_coverage_grows(scan, entry_type, hiding_few, hiding_many, scan.len());
    lemma_coverage_grows(scan, entry_type, hiding_many, open_many, scan.len());
    lemma_coverage_grows(scan, entry_type, open_few, open_many, scan.len());
    lemma_coverage_grows(scan, entry_type, open_many, open_few, scan.len());
}

/// Where nothing was scanned, the size of a map is its floor.
pub proof fn law_empty_scan_needs_the_floor(
    entry_type: EntryType,
    min_capacity: u32,
    ignore_hidden: bool,
    allow_hidden: &[&str],
)
    ensures
        dynamic_capacity(Seq::empty(), entry_type, min_capacity, ignore_hidden, allow_hidden)
            == min_capacity,
{
}

proof fn lemma_files_are_of_type(scan: Seq<ScanEntry>, n: nat)
    requires
        n <= scan.len(),
    ensures
        of_type_in(scan, EntryType::File, n) == files_in(scan, n),
    decreases n,
{
    if n > 0 {
        lemma_files_are_of_type(scan, (n - 1) as nat);
    }
}

/// A watchlist of opted-in binaries is sized like any other watchlist of files that leaves nothing
/// out.
pub proof fn law_watchlist_capacity_agrees(scan: Seq<ScanEntry>)
    ensures
        capacity_for(files_in(scan, scan.len()), MIN_WATCHLIST_CAPACITY) == dynamic_capacity(
            scan,
            EntryType::File,
            MIN_WATCHLIST_CAPACITY,
            false,
            &[],
        ),
        capacity_for(files_in(scan, scan.len()), MIN_WATCHLIST_CAPACITY) >= MIN_WATCHLIST_CAPACITY,
{
    let rule = HiddenRule { ignore_hidden: false, allow_hidden: &[] };
    lemma_all_admitted_all_reached(scan, EntryType::File, rule, scan.len());
    lemma_files_are_of_type(scan, scan.len());
}

/// Which names a rule lets in: every name that does not start with a dot, and where hidden entries
/// are left out, of those that do exactly the allowed ones.
pub proof fn law_only_hidden_names_are_left_out(rule: HiddenRule, name: Seq<char>)
    ensures
        name.len() == 0 || name[0] != '.' ==> rule.admits_name(name),
        !rule.ignore_hidden ==> rule.admits_name(name),
        rule.ignore_hidden && name.len() > 0 && name[0] == '.' ==> (rule.admits_name(name)
            <==> exists|k: int|
            0 <= k < rule.allow_hidden@.len() && (#[trigger] rule.allow_hidden@[k])@ == name),
{
    let allowed = slice_texts(rule.allow_hidden@);
    if allowed.contains(name) {
        let k = allowed.index_of(name);
        assert(rule.allow_hidden@[k]@ == name);
    }
    if exists|k: int| 0 <= k < rule.allow_hidden@.len() && (#[trigger] rule.allow_hidden@[k])@ == name {
        let k = choose|k: int|
            0 <= k < rule.allow_hidden@.len() && (#[trigger] rule.allow_hidden@[k])@ == name;
        assert(allowed[k] == name);
    }
}

/// What a watchlist covers, by what the scan found alone: an entry of the wanted type, no deeper than
/// twenty levels, of which neither its own name nor that of a directory around it is hidden, unless
/// hidden entries are let in or that very name is allowed.
pub proof fn law_coverage_by_type_depth_and_names(
    scan: Seq<ScanEntry>,
    wanted: EntryType,
    rule: HiddenRule,
    i: usize,
)
    requires
        scan.len() <= usize::MAX,
    ensures
        coverage(scan, wanted, rule, scan.len()).contains(i) <==> {
            &&& i < scan.len()
            &&& wanted == EntryType::File ==> scan[i as int].found == FoundType::File
            &&& wanted == EntryType::Directory ==> scan[i as int].found == FoundType::Directory
            &&& scan[i as int].depth <= 20
            &&& forall|j: int|
                #![trigger scan[j].name@]
                0 <= j <= i && (forall|k: int|
                    j < k <= i ==> (#[trigger] scan[k]).depth > scan[j].depth) ==> {
                    ||| !rule.ignore_hidden
                    ||| scan[j].name@.len() == 0
                    ||| scan[j].name@[0] != '.'
                    ||| exists|a: int|
                        0 <= a < rule.allow_hidden@.len() && (#[trigger] rule.allow_hidden@[a])@
                            == scan[j].name@
                }
        },
{
    law_coverage_is_exact(scan, wanted, rule, i);
    if i < scan.len() {
        assert forall|j: int| #[trigger] encloses(scan, j, i as int) implies (rule.admits_name(
            scan[j].name@,
        ) <==> {
            ||| !rule.ignore_hidden
            ||| scan[j].name@.len() == 0
            ||| scan[j].name@[0] != '.'
            ||| exists|a: int|
                0 <= a < rule.allow_hidden@.len() && (#[trigger] rule.allow_hidden@[a])@
                    == scan[j].name@
        }) by {
            law_only_hidden_names_are_left_out(rule, scan[j].name@);
        }
        assert forall|j: int|
            #![trigger scan[j].name@]
            encloses(scan, j, i as int) <==> 0 <= j <= i && (forall|k: int|
                j < k <= i ==> (#[trigger] scan[k]).depth > scan[j].depth) by {}
    }
}

/// A directory with an ordinary path is always watched: whatever rule holds, an entry of the wanted
/// type that is not too deep, and neither is hidden nor lies below a hidden one, is covered.
pub proof fn law_ordinary_entries_are_covered(
    scan: Seq<ScanEntry>,
    wanted: EntryType,
    rule: HiddenRule,
    i: usize,
)
    requires
        scan.len() <= usize::MAX,
        i < scan.len(),
        wanted == EntryType::File ==> scan[i as int].found == FoundType::File,
        wanted == EntryType::Directory ==> scan[i as int].found == FoundType::Directory,
        scan[i as int].depth <= 20,
        forall|j: int|
            0 <= j <= i ==> (#[trigger] scan[j]).name@.len() == 0 || scan[j].name@[0] != '.',
    ensures
        coverage(scan, wanted, rule, scan.len()).contains(i),
{
    law_coverage_by_type_depth_and_names(scan, wanted, rule, i);
}

proof fn lemma_coverage_bound(scan: Seq<ScanEntry>, wanted: EntryType, rule: HiddenRule, n: nat)
    requires
        n <= usize::MAX,
    ensures
        forall|a: int|
            0 <= a < coverage(scan, wanted, rule, n).len() ==> (#[trigger] coverage(
                scan,
                wanted,
                rule,
                n,
            )[a]) < n,
        forall|a: int, b: int|
            0 <= a < b < coverage(scan, wanted, rule, n).len() ==> (#[trigger] coverage(
                scan,
                wanted,
                rule,
                n,
            )[a]) < (#[trigger] coverage(scan, wanted, rule, n)[b]),
    decreases n,
{
    if n > 0 {
        lemma_coverage_bound(scan, wanted, rule, (n - 1) as nat);
        let earlier = coverage(scan, wanted, rule, (n - 1) as nat);
        let all = coverage(scan, wanted, rule, n);
        assert(all == earlier || all == earlier.push((n - 1) as usize));
        assert forall|a: int| 0 <= a < all.len() implies (#[trigger] all[a]) < n by {
            if a < earlier.len() {
                assert(all[a] == earlier[a]);
            }
        }
        assert forall|a: int, b: int| 0 <= a < b < all.len() implies (#[trigger] all[a]) < (
        #[trigger] all[b]) by {
            assert(all[a] == earlier[a]);
            if b < earlier.len() {
                assert(all[b] == earlier[b]);
            }
        }
    }
}

/// Entries are covered in the order of the scan, each of them once.
pub proof fn law_coverage_is_in_order(
    scan: Seq<ScanEntry>,
    wanted: EntryType,
    rule: HiddenRule,
    a: int,
    b: int,
)
    requires
        scan.len() <= usize::MAX,
        0 <= a < b < coverage(scan, wanted, rule, scan.len()).len(),
    ensures
        coverage(scan, wanted, rule, scan.len())[a] < coverage(scan, wanted, rule, scan.len())[b],
{
    lemma_coverage_bound(scan, wanted, rule, scan.len());
}

/// A map has room for the counted entries and a quarter more, rounded down, and for its floor; it is
/// no larger than the larger of the two.
pub proof fn law_capacity_is_a_quarter_more(count: nat, min_capacity: u32)
    ensures
        capacity_for(count, min_capacity) >= min_capacity,
        4 * capacity_for(count, min_capacity) + 4 > 5 * count,
        capacity_for(count, min_capacity) == min_capacity || 4 * capacity_for(count, min_capacity)
            <= 5 * count,
{
}

/// The size of a map over scanned entries, by the number of entries that its watchlist covers.
pub proof fn law_dynamic_capacity_follows_the_coverage(
    scan: Seq<ScanEntry>,
    entry_type: EntryType,
    min_capacity: u32,
    ignore_hidden: bool,
    allow_hidden: &[&str],
)
    ensures
        ({
            let n = coverage(
                scan,
                entry_type,
                HiddenRule { ignore_hidden, allow_hidden },
                scan.len(),
            ).len();
            let size = dynamic_capacity(scan, entry_type, min_capacity, ignore_hidden, allow_hidden);
            &&& size >= min_capacity
            &&& 4 * size + 4 > 5 * n
            &&& size == min_capacity || 4 * size <= 5 * n
        }),
{
}

proof fn lemma_files_in(scan: Seq<ScanEntry>, n: nat)
    requires
        n <= scan.len(),
    ensures
        files_in(scan, n) == scan.take(n as int).filter(
            |e: ScanEntry| e.found == FoundType::File && e.depth <= 20,
        ).len(),
    decreases n,
{
    reveal(Seq::filter);
    if n > 0 {
        lemma_files_in(scan, (n - 1) as nat);
        assert(scan.take(n as int).drop_last() =~= scan.take(n - 1));
        assert(scan.take(n as int).last() == scan[n - 1]);
    }
}

/// The size of a map of opted-in binaries, by the number of regular files that were scanned down to
/// the twentieth level: a quarter more, and no less than 2048.
pub proof fn law_watchlist_capacity_follows_the_files(scan: Seq<ScanEntry>)
    ensures
        ({
            let n = scan.filter(|e: ScanEntry| e.found == FoundType::File && e.depth <= 20).len();
            let size = capacity_for(files_in(scan, scan.len()), MIN_WATCHLIST_CAPACITY);
            &&& size >= 2048
            &&& 4 * size + 4 > 5 * n
            &&& size == 2048 || 4 * size <= 5 * n
        }),
{
    lemma_files_in(scan, scan.len());
    assert(scan.take(scan.len() as int) =~= scan);
}

} // verus!
