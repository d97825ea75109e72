//! The kernel broker: which programs are loaded, how they are sized, and how they start out.

use crate::catalog::{capacity_of, counted, lemma_watchlist_is_unique, map_capacities, Watch};
use crate::config::DaemonConfig;
use crate::encoding::{in_native_order, little_bytes_u32, u32_to_ne_bytes};
use crate::fs_utils::ScanEntry;
use crate::module::{find_module, found_at, HeuristicModule, SecurityModule};
use crate::reader::{law_number_round_trip, u32_at};
use crate::text::{
    blank, chars_of, concat, decimal, is_white_space, law_decimal_reads_back, law_split_at_a_separator,
    law_text_without_a_separator_is_one_piece, law_trim_takes_the_ends, law_white_space, parse_u32,
    read_u32_text, same_text, split, split_chars, texts, trim, trim_chars,
};
use vstd::prelude::*;

verus! {

/// Whether a kernel release has the VFS layout of 6.12 and later, in the model. A release that
/// is unknown or malformed is taken for a modern one.
pub open spec fn modern_vfs(release: Option<Seq<char>>) -> bool {
    match release {
        None => true,
        Some(text) => {
            let parts = split(trim(text), '.');
            if parts.len() < 2 {
                true
            } else {
                match (parse_u32(parts[0]), parse_u32(parts[1])) {
                    (Some(major), Some(minor)) => major > 6 || (major == 6 && minor >= 12),
                    _ => true,
                }
            }
        },
    }
}

/// Whether the host kernel is version 6.12 or newer, by its release string; none where the
/// string could not be read. That version changed the signature of `vfs_mkdir`.
pub fn is_post_2025_vfs(release: Option<&str>) -> (r: bool)
    ensures
        r == modern_vfs(
            match release {
                Some(text) => Some(text@),
                None => None,
            },
        ),
{
    match release {
        None => true,
        Some(text) => {
            let chars = chars_of(text);
            let trimmed = trim_chars(&chars);
            let parts = split_chars(&trimmed, '.');
            assert(texts(parts@).len() == parts@.len());
            if parts.len() < 2 {
                return true;
            }
            assert(texts(parts@)[0] == parts@[0]@ && texts(parts@)[1] == parts@[1]@);
            match (read_u32_text(parts[0].as_str()), read_u32_text(parts[1].as_str())) {
                (Some(major), Some(minor)) => major > 6 || (major == 6 && minor >= 12),
                _ => true,
            }
        },
    }
}

/// Whether a program of a module is loaded, in the model; none where the default stands.
pub open spec fn autoload_of(module: Seq<char>, program: Seq<char>, post_2025: bool) -> Option<
    bool,
> {
    if program == module + "_vfs_mkdir_exit_new"@ {
        Some(post_2025)
    } else if program == module + "_vfs_mkdir_exit_old"@ {
        Some(!post_2025)
    } else if program == module + "_vfs_rename_exit_new"@ {
        Some(true)
    } else if program == module + "_vfs_rename_exit_old"@ {
        Some(false)
    } else {
        None
    }
}

/// Whether a program of a module is to be loaded. Of hooks that exist in two versions, the one
/// whose signature the host kernel does not have is left out: the verifier would reject it.
pub fn autoload(module: &str, program: &str, post_2025: bool) -> (r: Option<bool>)
    ensures
        r == autoload_of(module@, program@, post_2025),
{
    let name = program.to_owned();
    if name == concat(module, "_vfs_mkdir_exit_new") {
        Some(post_2025)
    } else if name == concat(module, "_vfs_mkdir_exit_old") {
        Some(!post_2025)
    } else if name == concat(module, "_vfs_rename_exit_new") {
        Some(true)
    } else if name == concat(module, "_vfs_rename_exit_old") {
        Some(false)
    } else {
        None
    }
}

/// On every kernel exactly one version of each hook is loaded.
pub proof fn law_one_hook_version(module: Seq<char>, post_2025: bool)
    ensures
        autoload_of(module, module + "_vfs_mkdir_exit_new"@, post_2025) == Some(post_2025),
        autoload_of(module, module + "_vfs_mkdir_exit_old"@, post_2025) == Some(!post_2025),
        autoload_of(module, module + "_vfs_rename_exit_new"@, post_2025) == Some(true),
        autoload_of(module, module + "_vfs_rename_exit_old"@, post_2025) == Some(false),
{
    reveal_strlit("_vfs_mkdir_exit_new");
    reveal_strlit("_vfs_mkdir_exit_old");
    reveal_strlit("_vfs_rename_exit_new");
    reveal_strlit("_vfs_rename_exit_old");
    let n = module.len() as int;
    let mkdir_new = module + "_vfs_mkdir_exit_new"@;
    let mkdir_old = module + "_vfs_mkdir_exit_old"@;
    let rename_new = module + "_vfs_rename_exit_new"@;
    let rename_old = module + "_vfs_rename_exit_old"@;
    assert(mkdir_new[n + 16] == 'n' && mkdir_old[n + 16] == 'o');
    assert(rename_new[n + 17] == 'n' && rename_old[n + 17] == 'o');
    assert(mkdir_new.len() == n + 19 && rename_new.len() == n + 20);
    assert(mkdir_old.len() == n + 19 && rename_old.len() == n + 20);
}

/// The kernel map that holds the state of a module, under the key 0.
pub const STATE_MAP: &'static str = "state_map";

/// The value that stands for a state in a kernel map, in the model.
pub open spec fn state_value(active: bool) -> Seq<u8> {
    in_native_order(
        little_bytes_u32(
            if active {
                1
            } else {
                0
            },
        ),
    )
}

/// The key and the value that set the state of a module in its kernel map: a native-order 1 for an
/// active module, a 0 for any other.
pub fn kernel_state(active: bool) -> (r: ([u8; 4], [u8; 4]))
    ensures
        r.0@ == in_native_order(little_bytes_u32(0)),
        r.1@ == state_value(active),
{
    let value: u32 = if active {
        1
    } else {
        0
    };
    (u32_to_ne_bytes(0), u32_to_ne_bytes(value))
}

/// The programs that are loaded, by the slug of their module. Dropping a handle detaches its
/// program.
pub struct BpfEngine<S> {
    slugs: Vec<String>,
    handles: Vec<S>,
}

/// What is to be done for one loaded module when the daemon starts.
pub struct InitStep {
    /// The slug of the module.
    pub slug: String,
    /// The state that it starts in.
    pub is_active: bool,
    /// Where it stands in the registry, if it does.
    pub module: Option<usize>,
}

/// Whether a configuration enables a module, in the model.
pub open spec fn enabled(config: Map<Seq<char>, bool>, slug: Seq<char>) -> bool {
    config.dom().contains(slug) && config[slug]
}

/// Whether module `k` is the one that its slug leads to.
pub open spec fn is_primary<M: SecurityModule>(registry: Seq<M>, k: int) -> bool {
    forall|j: int| 0 <= j < k ==> (#[trigger] registry[j]).id() != registry[k].id()
}

/// Whether `steps` says, for each loaded program in turn, that it starts in its configured state,
/// and where its module stands in the registry.
pub open spec fn is_boot_plan<M: SecurityModule>(
    names: Seq<Seq<char>>,
    config: Map<Seq<char>, bool>,
    registry: Seq<M>,
    steps: Seq<InitStep>,
) -> bool {
    &&& steps.len() == names.len()
    &&& forall|i: int|
        0 <= i < steps.len() ==> {
            &&& (#[trigger] steps[i]).slug@ == names[i]
            &&& steps[i].is_active == enabled(config, names[i])
            &&& found_at(registry, names[i], steps[i].module)
        }
}

/// Whether a registry is another one with every module whose program is loaded set to its
/// configured state, and nothing else changed.
pub open spec fn is_booted<M: SecurityModule>(
    names: Seq<Seq<char>>,
    config: Map<Seq<char>, bool>,
    before: Seq<M>,
    after: Seq<M>,
) -> bool {
    &&& after.len() == before.len()
    &&& forall|k: int|
        0 <= k < before.len() ==> {
            &&& (#[trigger] after[k]).id() == before[k].id()
            &&& after[k].title() == before[k].title()
            &&& after[k].active() == if is_primary(before, k) && names.contains(before[k].id()) {
                enabled(config, before[k].id())
            } else {
                before[k].active()
            }
        }
}

impl<S> BpfEngine<S> {
    /// The slugs of the loaded modules, in the order of loading.
    pub closed spec fn names(&self) -> Seq<Seq<char>> {
        texts(self.slugs@)
    }

    /// The handle of each loaded module.
    pub closed spec fn skeletons(&self) -> Seq<S> {
        self.handles@
    }

    /// Each loaded module has one handle.
    pub open spec fn wf(&self) -> bool {
        &&& self.names().len() == self.skeletons().len()
        &&& self.names().no_duplicates()
    }

    /// Whether a module is loaded.
    pub open spec fn loaded(&self, slug: Seq<char>) -> bool {
        self.names().contains(slug)
    }

    /// A broker without any loaded module.
    pub fn new() -> (r: Self)
        ensures
            r.wf(),
            r.names() == Seq::<Seq<char>>::empty(),
    {
        BpfEngine { slugs: Vec::new(), handles: Vec::new() }
    }

    /// Where a slug stands among the loaded modules.
    fn position(&self, target: &str) -> (r: Option<usize>)
        requires
            self.wf(),
        ensures
            r is Some <==> self.loaded(target@),
            r matches Some(i) ==> i < self.names().len() && self.names()[i as int] == target@,
    {
        let mut i: usize = 0;
        while i < self.slugs.len()
            invariant
                i <= self.slugs@.len(),
                forall|j: int| 0 <= j < i ==> #[trigger] self.names()[j] != target@,
            decreases self.slugs@.len() - i,
        {
            if same_text(self.slugs[i].as_str(), target) {
                assert(self.names()[i as int] == target@);
                return Some(i);
            }
            i = i + 1;
        }
        None
    }

    /// Whether a broker is another one that took over the handle of a module: a module that is
    /// loaded again replaces its handle, any other comes last.
    pub open spec fn took_over(before: Self, after: Self, slug: Seq<char>, skeleton: S) -> bool {
        &&& after.names() == if before.loaded(slug) {
            before.names()
        } else {
            before.names().push(slug)
        }
        &&& after.skeletons().len() == after.names().len()
        &&& forall|i: int|
            0 <= i < after.names().len() ==> #[trigger] after.skeletons()[i]
                == if after.names()[i] == slug {
                skeleton
            } else {
                before.skeletons()[i]
            }
    }

    /// Takes over the handle of a module that was loaded.
    pub fn insert(&mut self, slug: &str, skeleton: S)
        requires
            old(self).wf(),
        ensures
            final(self).wf(),
            Self::took_over(*old(self), *final(self), slug@, skeleton),
    {
        match self.position(slug) {
            Some(i) => {
                self.handles.set(i, skeleton);
            },
            None => {
                let ghost before = self.slugs@;
                self.slugs.push(slug.to_owned());
                self.handles.push(skeleton);
                assert(texts(self.slugs@) =~= texts(before).push(slug@));
                assert forall|i: int|
                    0 <= i < self.names().len() implies #[trigger] self.skeletons()[i]
                    == if self.names()[i] == slug@ {
                    skeleton
                } else {
                    old(self).skeletons()[i]
                } by {
                    if i < before.len() {
                        assert(old(self).names()[i] == self.names()[i]);
                        assert(old(self).names().contains(self.names()[i]));
                    }
                }
            },
        }
    }

    /// Takes what came of loading a module; gives the line for an operator.
    pub fn record_load(&mut self, slug: &str, skeleton: Option<S>) -> (r: String)
        requires
            old(self).wf(),
        ensures
            final(self).wf(),
            match skeleton {
                Some(handle) => {
                    &&& Self::took_over(*old(self), *final(self), slug@, handle)
                    &&& r@ == "· Loaded and Attached eBPF module: "@ + slug@
                },
                None => {
                    &&& *final(self) == *old(self)
                    &&& r@ == "· [Fatal] Failed to load module "@ + slug@
                },
            },
    {
        match skeleton {
            Some(handle) => {
                self.insert(slug, handle);
                concat("· Loaded and Attached eBPF module: ", slug)
            },
            None => concat("· [Fatal] Failed to load module ", slug),
        }
    }

    /// The handle of a loaded module.
    pub fn get_skeleton(&self, target: &str) -> (r: Option<&S>)
        requires
            self.wf(),
        ensures
            r is Some <==> self.loaded(target@),
            r matches Some(skeleton) ==> forall|i: int|
                0 <= i < self.names().len() && #[trigger] self.names()[i] == target@ ==> *skeleton
                    == self.skeletons()[i],
    {
        match self.position(target) {
            Some(i) => Some(&self.handles[i]),
            None => None,
        }
    }

    /// Sets every registered module whose program is loaded to its configured state, and lists
    /// what is to be done in the kernel: for each loaded program its state, and which module is to
    /// fill its maps. A module that the configuration does not mention starts out inactive.
    pub fn initialize_active_modules<M: SecurityModule>(
        &self,
        registry: &mut Vec<M>,
        config: &DaemonConfig,
    ) -> (r: Vec<InitStep>)
        requires
            self.wf(),
        ensures
            is_boot_plan(self.names(), config@, old(registry)@, r@),
            is_booted(self.names(), config@, old(registry)@, final(registry)@),
    {
        let ghost start = registry@;
        let ghost names = self.names();
        let mut steps: Vec<InitStep> = Vec::new();
        let mut i: usize = 0;
        assert(names.take(0) =~= Seq::empty());
        while i < self.slugs.len()
            invariant
                names == self.names(),
                names.len() == self.slugs@.len(),
                names.no_duplicates(),
                i <= names.len(),
                steps@.len() == i,
                forall|j: int|
                    0 <= j < i ==> {
                        &&& (#[trigger] steps@[j]).slug@ == names[j]
                        &&& steps@[j].is_active == enabled(config@, names[j])
                        &&& found_at(start, names[j], steps@[j].module)
                    },
                registry@.len() == start.len(),
                forall|k: int|
                    0 <= k < start.len() ==> {
                        &&& (#[trigger] registry@[k]).id() == start[k].id()
                        &&& registry@[k].title() == start[k].title()
                        &&& registry@[k].active() == if is_primary(start, k) && names.take(
                            i as int,
                        ).contains(start[k].id()) {
                            enabled(config@, start[k].id())
                        } else {
                            start[k].active()
                        }
                    },
            decreases names.len() - i,
        {
            let slug = self.slugs[i].as_str();
            assert(slug@ == names[i as int]);
            let is_active = config.is_enabled(slug);
            let at = find_module(registry.as_slice(), slug);
            let ghost before = registry@;
            proof {
                lemma_same_ids(before, start, slug@, at);
            }
            if let Some(k) = at {
                registry[k].toggle(is_active);
            }
            steps.push(InitStep { slug: slug.to_owned(), is_active, module: at });
            proof {
                let done = names.take(i as int);
                let next = names.take(i + 1);
                assert(next =~= done.push(slug@));
                assert forall|k: int| 0 <= k < start.len() implies {
                    &&& (#[trigger] registry@[k]).id() == start[k].id()
                    &&& registry@[k].title() == start[k].title()
                    &&& registry@[k].active() == if is_primary(start, k) && next.contains(
                        start[k].id(),
                    ) {
                        enabled(config@, start[k].id())
                    } else {
                        start[k].active()
                    }
                } by {
                    assert(before[k].id() == start[k].id());
                    lemma_push_contains(done, slug@, start[k].id());
                    match at {
                        Some(p) => {
                            if k != p {
                                assert(registry@[k] == before[k]);
                                if start[k].id() == slug@ {
                                    assert(!is_primary(start, k)) by {
                                        if k < p {
                                            assert(start[k].id() != slug@);
                                        } else {
                                            assert(start[p as int].id() == start[k].id());
                                        }
                                    }
                                }
                            }
                        },
                        None => {
                            assert(start[k].id() != slug@);
                        },
                    }
                }
            }
            i = i + 1;
        }
        assert(names.take(i as int) =~= names);
        steps
    }
}

proof fn lemma_push_contains(s: Seq<Seq<char>>, last: Seq<char>, x: Seq<char>)
    ensures
        s.push(last).contains(x) <==> s.contains(x) || x == last,
{
    let grown = s.push(last);
    if s.contains(x) {
        assert(grown[s.index_of(x)] == x);
    }
    if x == last {
        assert(grown[s.len() as int] == x);
    }
    if grown.contains(x) && x != last {
        assert(s[grown.index_of(x)] == x);
    }
}

proof fn lemma_same_ids<M: SecurityModule>(a: Seq<M>, b: Seq<M>, slug: Seq<char>, at: Option<usize>)
    requires
        a.len() == b.len(),
        forall|k: int| 0 <= k < b.len() ==> (#[trigger] a[k]).id() == b[k].id(),
        found_at(a, slug, at),
    ensures
        found_at(b, slug, at),
{
    match at {
        Some(i) => {
            assert(a[i as int].id() == b[i as int].id());
            assert forall|j: int| 0 <= j < i implies (#[trigger] b[j]).id() != slug by {
                assert(a[j].id() == b[j].id());
            }
        },
        None => {
            assert forall|j: int| 0 <= j < b.len() implies (#[trigger] b[j]).id() != slug by {
                assert(a[j].id() == b[j].id());
            }
        },
    }
}

/// Whether `watch` is the watchlist of the module that `slug` leads to: none without a module.
pub open spec fn watched(registry: Seq<HeuristicModule>, slug: Seq<char>, watch: Watch) -> bool {
    exists|at: Option<usize>|
        {
            &&& #[trigger] found_at(registry, slug, at)
            &&& match at {
                Some(i) => registry[i as int].kind().keeps(watch),
                None => watch is Nothing,
            }
        }
}

/// The watchlist of a module: what has to be scanned before its maps can be sized.
pub fn watch_of(slug: &str, registry: &[HeuristicModule]) -> (r: Watch)
    ensures
        watched(registry@, slug@, r),
{
    let at = find_module(registry, slug);
    match at {
        Some(i) => registry[i].heuristic().watch(),
        None => Watch::Nothing,
    }
}

/// A slug leads to one watchlist: whichever value stands for it, the same entries are counted and
/// the same map gets the same size.
pub proof fn lemma_watched_is_unique(
    registry: Seq<HeuristicModule>,
    slug: Seq<char>,
    a: Watch,
    b: Watch,
    scan: Seq<ScanEntry>,
)
    requires
        watched(registry, slug, a),
        watched(registry, slug, b),
    ensures
        counted(a, scan) == counted(b, scan),
        capacity_of(a, scan) == capacity_of(b, scan),
{
    let at = choose|at: Option<usize>|
        {
            &&& #[trigger] found_at(registry, slug, at)
            &&& match at {
                Some(i) => registry[i as int].kind().keeps(a),
                None => a is Nothing,
            }
        };
    let other = choose|at: Option<usize>|
        {
            &&& #[trigger] found_at(registry, slug, at)
            &&& match at {
                Some(i) => registry[i as int].kind().keeps(b),
                None => b is Nothing,
            }
        };
    match (at, other) {
        (Some(i), Some(j)) => {
            assert(registry[i as int].id() == slug && registry[j as int].id() == slug);
            assert(i == j);
            lemma_watchlist_is_unique(registry[i as int].kind(), a, b, scan);
        },
        (Some(i), None) => {
            assert(registry[i as int].id() == slug);
        },
        (None, Some(j)) => {
            assert(registry[j as int].id() == slug);
        },
        (None, None) => {},
    }
}

/// The map that has to be sized before a module is loaded, and its size; none for a module that
/// is not registered or watches nothing. `scan` holds what was found below the roots of the
/// watchlist.
pub fn get_capacities(slug: &str, registry: &[HeuristicModule], scan: &[ScanEntry]) -> (r: Option<
    (&'static str, u32),
>)
    requires
        forall|watch: Watch| #[trigger]
            watched(registry@, slug@, watch) ==> counted(watch, scan@) <= i32::MAX,
    ensures
        forall|watch: Watch| #[trigger]
            watched(registry@, slug@, watch) ==> {
                &&& r is Some <==> capacity_of(watch, scan@) is Some
                &&& r matches Some(c) ==> capacity_of(watch, scan@) == Some((c.0@, c.1 as nat))
            },
{
    let watch = watch_of(slug, registry);
    proof {
        assert forall|other: Watch| #[trigger] watched(registry@, slug@, other) implies capacity_of(
            watch,
            scan@,
        ) == capacity_of(other, scan@) by {
            lemma_watched_is_unique(registry@, slug@, watch, other, scan@);
        }
    }
    map_capacities(watch, scan)
}

/// The kernel states after the steps of a start were carried out: each sets the state of its module
/// and nothing after that touches it.
pub open spec fn states_written(steps: Seq<InitStep>) -> Map<Seq<char>, Seq<u8>>
    decreases steps.len(),
{
    if steps.len() == 0 {
        Map::empty()
    } else {
        states_written(steps.drop_last()).insert(
            steps.last().slug@,
            state_value(steps.last().is_active),
        )
    }
}

proof fn lemma_states_written(
    config: Map<Seq<char>, bool>,
    steps: Seq<InitStep>,
    slug: Seq<char>,
)
    requires
        forall|i: int|
            0 <= i < steps.len() ==> (#[trigger] steps[i]).is_active == enabled(
                config,
                steps[i].slug@,
            ),
    ensures
        (exists|i: int| 0 <= i < steps.len() && (#[trigger] steps[i]).slug@ == slug)
            <==> states_written(steps).contains_key(slug),
        states_written(steps).contains_key(slug) ==> states_written(steps)[slug] == state_value(
            enabled(config, slug),
        ),
    decreases steps.len(),
{
    if steps.len() > 0 {
        let init = steps.drop_last();
        assert forall|i: int| 0 <= i < init.len() implies (#[trigger] init[i]).is_active == enabled(
            config,
            init[i].slug@,
        ) by {
            assert(steps[i].is_active == enabled(config, steps[i].slug@));
        }
        lemma_states_written(config, init, slug);
        assert(steps[steps.len() - 1].is_active == enabled(config, steps.last().slug@));
        if exists|i: int| 0 <= i < steps.len() && (#[trigger] steps[i]).slug@ == slug {
            let i = choose|i: int| 0 <= i < steps.len() && (#[trigger] steps[i]).slug@ == slug;
            if i < init.len() {
                assert(init[i].slug@ == slug);
            }
        }
        if states_written(init).contains_key(slug) {
            let i = choose|i: int| 0 <= i < init.len() && (#[trigger] init[i]).slug@ == slug;
            assert(steps[i].slug@ == slug);
        }
    }
}

/// The configuration dictates the state in which the daemon starts: in the kernel every loaded
/// program is active exactly if the configuration enables it, none other is touched, and the
/// module that goes by its slug agrees.
pub proof fn law_boot_state_follows_the_configuration<M: SecurityModule>(
    names: Seq<Seq<char>>,
    config: Map<Seq<char>, bool>,
    before: Seq<M>,
    after: Seq<M>,
    steps: Seq<InitStep>,
    slug: Seq<char>,
)
    requires
        is_boot_plan(names, config, before, steps),
        is_booted(names, config, before, after),
    ensures
        states_written(steps).contains_key(slug) <==> names.contains(slug),
        names.contains(slug) ==> states_written(steps)[slug] == state_value(enabled(config, slug)),
        names.contains(slug) ==> forall|k: int|
            0 <= k < after.len() && is_primary(before, k) && (#[trigger] after[k]).id() == slug
                ==> after[k].active() == enabled(config, slug),
{
    assert forall|i: int| 0 <= i < steps.len() implies (#[trigger] steps[i]).is_active == enabled(
        config,
        steps[i].slug@,
    ) by {
        assert(steps[i].slug@ == names[i]);
    }
    lemma_states_written(config, steps, slug);
    if names.contains(slug) {
        assert(steps[names.index_of(slug)].slug@ == slug);
    }
    if states_written(steps).contains_key(slug) {
        let i = choose|i: int| 0 <= i < steps.len() && (#[trigger] steps[i]).slug@ == slug;
        assert(names[i] == slug);
    }
}

/// A release that states its version is modern exactly from 6.12 on, whatever follows the version
/// behind a dot and whatever blanks stand around it.
pub proof fn law_modern_from_six_twelve(
    left: Seq<char>,
    major: u32,
    minor: u32,
    tail: Seq<char>,
    right: Seq<char>,
)
    requires
        blank(left),
        blank(right),
        tail.len() > 0 ==> tail[0] == '.' && !is_white_space(tail.last()),
    ensures
        modern_vfs(
            Some(left + (decimal(major as nat) + seq!['.'] + decimal(minor as nat) + tail) + right),
        ) <==> major > 6 || (major == 6 && minor >= 12),
{
    let first = decimal(major as nat);
    let second = decimal(minor as nat);
    let version = first + seq!['.'] + second + tail;
    law_decimal_reads_back(major as nat);
    law_decimal_reads_back(minor as nat);
    assert('0' <= first[0] <= '9' && '0' <= second[second.len() - 1] <= '9');
    law_white_space(first[0]);
    law_white_space(second[second.len() - 1]);
    assert(version[0] == first[0]);
    assert(version.last() == if tail.len() > 0 {
        tail.last()
    } else {
        second[second.len() - 1]
    });
    law_trim_takes_the_ends(left, version, right);
    assert(version =~= first + seq!['.'] + (second + tail));
    law_split_at_a_separator(first, '.', second + tail);
    law_text_without_a_separator_is_one_piece(first, '.');
    law_text_without_a_separator_is_one_piece(second, '.');
    if tail.len() > 0 {
        assert(second + tail =~= second + seq!['.'] + tail.drop_first());
        law_split_at_a_separator(second, '.', tail.drop_first());
        assert(split(second + tail, '.')[0] == second);
    } else {
        assert(second + tail =~= second);
    }
    let parts = split(version, '.');
    assert(parts[0] == first && parts[1] == second);
}

/// A release that is unknown, or that holds no dot, is taken for a modern one.
pub proof fn law_unknown_releases_are_modern(left: Seq<char>, text: Seq<char>, right: Seq<char>)
    requires
        blank(left),
        blank(right),
        text.len() > 0 ==> !is_white_space(text[0]) && !is_white_space(text.last()),
        !text.contains('.'),
    ensures
        modern_vfs(None),
        modern_vfs(Some(left + text + right)),
{
    law_trim_takes_the_ends(left, text, right);
    law_text_without_a_separator_is_one_piece(text, '.');
}

/// Only the hooks that exist in two versions are chosen among; every other program keeps its default.
pub proof fn law_other_programs_keep_their_default(
    module: Seq<char>,
    program: Seq<char>,
    post_2025: bool,
)
    ensures
        autoload_of(module, program, post_2025) is Some <==> {
            ||| program == module + "_vfs_mkdir_exit_new"@
            ||| program == module + "_vfs_mkdir_exit_old"@
            ||| program == module + "_vfs_rename_exit_new"@
            ||| program == module + "_vfs_rename_exit_old"@
        },
{
}

/// The kernel reads a state back as one for an active module and as zero for any other.
pub proof fn law_state_reads_back(active: bool)
    ensures
        u32_at(state_value(active), 0) == 1 <==> active,
        u32_at(state_value(active), 0) == 0 <==> !active,
{
    let n: u32 = if active {
        1
    } else {
        0
    };
    let bytes = in_native_order(little_bytes_u32(n));
    law_number_round_trip(Seq::empty(), n, Seq::empty());
    assert(Seq::empty() + bytes + Seq::empty() =~= bytes);
}

/// What the configuration says is what holds after the start: a module whose program is loaded is
/// active exactly if the configuration sets it so, and a module whose program is not loaded stays as
/// it was.
pub proof fn law_start_obeys_the_configuration<M: SecurityModule>(
    names: Seq<Seq<char>>,
    config: Map<Seq<char>, bool>,
    before: Seq<M>,
    after: Seq<M>,
    steps: Seq<InitStep>,
    i: int,
    k: int,
)
    requires
        is_boot_plan(names, config, before, steps),
        is_booted(names, config, before, after),
    ensures
        steps.len() == names.len(),
        0 <= i < names.len() ==> {
            &&& steps[i].slug@ == names[i]
            &&& steps[i].is_active <==> config.dom().contains(names[i]) && config[names[i]]
        },
        after.len() == before.len(),
        0 <= k < before.len() ==> {
            &&& after[k].id() == before[k].id()
            &&& after[k].title() == before[k].title()
            &&& !names.contains(before[k].id()) ==> after[k].active() == before[k].active()
            &&& names.contains(before[k].id()) && (forall|j: int|
                0 <= j < k ==> (#[trigger] before[j]).id() != before[k].id()) ==> (
            after[k].active() <==> config.dom().contains(before[k].id()) && config[before[k].id()])
        },
{
    if 0 <= i < names.len() {
        assert(steps[i].slug@ == names[i]);
    }
    if 0 <= k < before.len() {
        assert(after[k].id() == before[k].id());
        assert(is_primary(before, k) <==> (forall|j: int|
            0 <= j < k ==> (#[trigger] before[j]).id() != before[k].id()));
    }
}

/// After a load the slug leads to the handle that was taken over and every other slug to the handle
/// that it led to before; nothing is unloaded, and nothing else is loaded.
pub proof fn law_load_changes_one_handle<S>(
    before: BpfEngine<S>,
    after: BpfEngine<S>,
    slug: Seq<char>,
    skeleton: S,
    name: Seq<char>,
    i: int,
    j: int,
)
    requires
        before.wf(),
        BpfEngine::took_over(before, after, slug, skeleton),
    ensures
        after.names().contains(name) <==> before.names().contains(name) || name == slug,
        0 <= j < after.names().len() && after.names()[j] == slug ==> after.skeletons()[j] == skeleton,
        0 <= i < before.names().len() ==> after.names()[i] == before.names()[i],
        0 <= i < before.names().len() && before.names()[i] != slug ==> after.skeletons()[i]
            == before.skeletons()[i],
{
    lemma_push_contains(before.names(), slug, name);
    if before.names().contains(slug) && name == slug {
        assert(after.names().contains(name));
    }
    if 0 <= j < after.names().len() {
        assert(after.skeletons()[j] == after.skeletons()[j]);
    }
    if 0 <= i < before.names().len() {
        assert(after.skeletons()[i] == after.skeletons()[i]);
    }
}

} // verus!
