//! Icon resolution against a freedesktop-style icon theme tree.
//!
//! The search is a state machine: it names the filesystem probe it needs next
//! (does a path exist, is it a directory), the host answers it, and the
//! machine moves on. Probes come in the fixed precedence order of base
//! directory, size bucket, category and extension, and the extensions under a
//! `base/theme/size/category` directory are only probed once that directory
//! has been confirmed to exist.

use crate::paths::{
    expand_tilde, expand_tilde_spec, icon_dirs_from_data_dirs, icon_dirs_from_list, join_path,
    join_spec,
};
use vstd::prelude::*;

verus! {

/// The theme searched when none is configured.
pub open spec fn fallback_theme() -> Seq<char> {
    "Adwaita"@
}

pub open spec fn size_bucket_names() -> Seq<Seq<char>> {
    seq![
        "scalable"@,
        "symbolic"@,
        "16x16"@,
        "22x22"@,
        "24x24"@,
        "32x32"@,
        "48x48"@,
        "64x64"@,
        "128x128"@,
    ]
}

pub open spec fn category_names() -> Seq<Seq<char>> {
    seq!["apps"@, "status"@, "actions"@, "devices"@, "categories"@, "places"@, "mimetypes"@]
}

pub open spec fn extension_names() -> Seq<Seq<char>> {
    seq!["svg"@, "svgz"@, "png"@, "xpm"@]
}

/// The well-known icon roots, two of them relative to the home directory.
pub open spec fn well_known_roots(home: Option<Seq<char>>) -> Seq<Seq<char>> {
    seq![
        "/usr/share/icons"@,
        "/usr/local/share/icons"@,
        expand_tilde_spec("~/.icons"@, home),
        expand_tilde_spec("~/.local/share/icons"@, home),
        "/usr/share/pixmaps"@,
        "/var/lib/flatpak/exports/share/icons"@,
    ]
}

pub open spec fn opt_view(o: Option<String>) -> Option<Seq<char>> {
    match o {
        Some(s) => Some(s@),
        None => None,
    }
}

pub open spec fn strings_view(v: Seq<String>) -> Seq<Seq<char>> {
    v.map_values(|s: String| s@)
}

/// Where and for what an icon is looked up; every order in it is a precedence
/// order.
pub struct IconSearchSpace {
    pub base_directories: Vec<String>,
    pub theme_name: String,
    pub size_buckets: Vec<String>,
    pub categories: Vec<String>,
    pub extensions: Vec<String>,
}

impl IconSearchSpace {
    /// The base directories, in order.
    pub open spec fn bases(&self) -> Seq<Seq<char>> {
        strings_view(self.base_directories@)
    }

    pub open spec fn sizes(&self) -> Seq<Seq<char>> {
        strings_view(self.size_buckets@)
    }

    pub open spec fn cats(&self) -> Seq<Seq<char>> {
        strings_view(self.categories@)
    }

    pub open spec fn exts(&self) -> Seq<Seq<char>> {
        strings_view(self.extensions@)
    }

    /// The standard search space: the configured theme (or the fallback
    /// theme), the well-known roots followed by one icon directory for each
    /// entry of the colon-separated data-directory list, and the fixed size,
    /// category and extension tables.
    pub fn new(theme: Option<String>, home: Option<String>, data_dirs: Option<String>) -> (r: Self)
        ensures
            r.theme_name@ == (match theme {
                Some(t) => t@,
                None => fallback_theme(),
            }),
            r.bases() == well_known_roots(opt_view(home)) + (match data_dirs {
                Some(d) => icon_dirs_from_list(d@),
                None => Seq::empty(),
            }),
            r.sizes() == size_bucket_names(),
            r.cats() == category_names(),
            r.exts() == extension_names(),
    {
        let theme_name = match theme {
            Some(t) => t,
            None => "Adwaita".to_owned(),
        };
        let home_str: Option<&str> = match &home {
            Some(h) => Some(h.as_str()),
            None => None,
        };
        let mut bases: Vec<String> = Vec::new();
        bases.push("/usr/share/icons".to_owned());
        bases.push("/usr/local/share/icons".to_owned());
        bases.push(expand_tilde("~/.icons", home_str));
        bases.push(expand_tilde("~/.local/share/icons", home_str));
        bases.push("/usr/share/pixmaps".to_owned());
        bases.push("/var/lib/flatpak/exports/share/icons".to_owned());
        assert(strings_view(bases@) =~= well_known_roots(opt_view(home)));
        let ghost fixed = bases@;
        if let Some(d) = &data_dirs {
            let mut extra = icon_dirs_from_data_dirs(d.as_str());
            let ghost extra_v = extra@;
            bases.append(&mut extra);
            assert(strings_view(bases@) =~= strings_view(fixed) + strings_view(extra_v));
        } else {
            assert(strings_view(bases@) =~= strings_view(fixed) + Seq::empty());
        }
        let mut sizes: Vec<String> = Vec::new();
        sizes.push("scalable".to_owned());
        sizes.push("symbolic".to_owned());
        sizes.push("16x16".to_owned());
        sizes.push("22x22".to_owned());
        sizes.push("24x24".to_owned());
        sizes.push("32x32".to_owned());
        sizes.push("48x48".to_owned());
        sizes.push("64x64".to_owned());
        sizes.push("128x128".to_owned());
        assert(strings_view(sizes@) =~= size_bucket_names());
        let mut cats: Vec<String> = Vec::new();
        cats.push("apps".to_owned());
        cats.push("status".to_owned());
        cats.push("actions".to_owned());
        cats.push("devices".to_owned());
        cats.push("categories".to_owned());
        cats.push("places".to_owned());
        cats.push("mimetypes".to_owned());
        assert(strings_view(cats@) =~= category_names());
        let mut exts: Vec<String> = Vec::new();
        exts.push("svg".to_owned());
        exts.push("svgz".to_owned());
        exts.push("png".to_owned());
        exts.push("xpm".to_owned());
        assert(strings_view(exts@) =~= extension_names());
        IconSearchSpace {
            base_directories: bases,
            theme_name,
            size_buckets: sizes,
            categories: cats,
            extensions: exts,
        }
    }
}


/// The directory `base/theme/size/category` of one search position.
pub open spec fn dir_path(sp: IconSearchSpace, b: int, s: int, c: int) -> Seq<char> {
    join_spec(join_spec(join_spec(sp.bases()[b], sp.theme_name@), sp.sizes()[s]), sp.cats()[c])
}

/// The file name `name.ext`.
pub open spec fn icon_file_name(name: Seq<char>, ext: Seq<char>) -> Seq<char> {
    name + "."@ + ext
}

/// The candidate file of one search position.
pub open spec fn file_path(sp: IconSearchSpace, name: Seq<char>, b: int, s: int, c: int, e: int) -> Seq<char> {
    join_spec(dir_path(sp, b, s, c), icon_file_name(name, sp.exts()[e]))
}

/// A position `(base, size, category, extension)` lies inside the space.
pub open spec fn in_space(sp: IconSearchSpace, b: int, s: int, c: int, e: int) -> bool {
    0 <= b < sp.bases().len() && 0 <= s < sp.sizes().len() && 0 <= c < sp.cats().len() && 0 <= e
        < sp.exts().len()
}

/// Lexicographic precedence of search positions.
pub open spec fn precedes(b1: int, s1: int, c1: int, e1: int, b2: int, s2: int, c2: int, e2: int) -> bool {
    b1 < b2 || (b1 == b2 && (s1 < s2 || (s1 == s2 && (c1 < c2 || (c1 == c2 && e1 < e2)))))
}

/// What the host is asked to find out about a path.
#[derive(Clone, Copy, Debug, PartialEq, Eq, Structural)]
pub enum ProbeKind {
    /// Whether anything exists at the path.
    Exists,
    /// Whether the path is a directory.
    IsDir,
}

/// A probe together with the path it is about.
pub type ProbeView = (ProbeKind, Seq<char>);

/// A candidate position was excluded by a negative answer: its base does not
/// exist, its directory is not one, or its file does not exist.
pub open spec fn ruled_out(
    sp: IconSearchSpace,
    name: Seq<char>,
    refuted: Set<ProbeView>,
    b: int,
    s: int,
    c: int,
    e: int,
) -> bool {
    refuted.contains((ProbeKind::Exists, sp.bases()[b])) || refuted.contains(
        (ProbeKind::IsDir, dir_path(sp, b, s, c)),
    ) || refuted.contains((ProbeKind::Exists, file_path(sp, name, b, s, c, e)))
}

/// Where a search stands.
#[derive(Clone, Copy, Debug, PartialEq, Eq, Structural)]
pub enum Cursor {
    /// Asking whether the icon name itself is an existing path.
    Direct,
    /// Asking whether a base directory exists.
    Base(usize),
    /// Asking whether `base/theme/size/category` is a directory.
    Dir(usize, usize, usize),
    /// Asking whether a candidate file exists.
    File(usize, usize, usize, usize),
    /// The icon name itself is the result.
    FoundDirect,
    /// The candidate file at this position is the result.
    FoundFile(usize, usize, usize, usize),
    /// The whole space was searched without a hit.
    Done,
}

/// What a search needs or has: a probe to answer, a result, or none.
pub enum SearchStep {
    Probe(ProbeKind, String),
    Found(String),
    NotFound,
}

/// A [`SearchStep`] with its strings as character sequences.
pub enum StepView {
    Probe(ProbeKind, Seq<char>),
    Found(Seq<char>),
    NotFound,
}

impl View for SearchStep {
    type V = StepView;

    open spec fn view(&self) -> StepView {
        match self {
            SearchStep::Probe(k, p) => StepView::Probe(*k, p@),
            SearchStep::Found(p) => StepView::Found(p@),
            SearchStep::NotFound => StepView::NotFound,
        }
    }
}

/// The next base directory from `b` on, or the end of the search.
pub open spec fn next_base(sp: IconSearchSpace, b: int) -> Cursor {
    if b < sp.bases().len() {
        Cursor::Base(b as usize)
    } else {
        Cursor::Done
    }
}

/// The directory position after `(b, s, c)`.
pub open spec fn next_dir(sp: IconSearchSpace, b: int, s: int, c: int) -> Cursor {
    if c + 1 < sp.cats().len() {
        Cursor::Dir(b as usize, s as usize, (c + 1) as usize)
    } else if s + 1 < sp.sizes().len() {
        Cursor::Dir(b as usize, (s + 1) as usize, 0)
    } else {
        next_base(sp, b + 1)
    }
}

/// Where the search goes once the pending probe has been answered.
pub open spec fn advance(sp: IconSearchSpace, cur: Cursor, yes: bool) -> Cursor {
    match cur {
        Cursor::Direct => if yes {
            Cursor::FoundDirect
        } else {
            next_base(sp, 0)
        },
        Cursor::Base(b) => if yes && sp.sizes().len() > 0 && sp.cats().len() > 0 {
            Cursor::Dir(b, 0, 0)
        } else {
            next_base(sp, b + 1)
        },
        Cursor::Dir(b, s, c) => if yes && sp.exts().len() > 0 {
            Cursor::File(b, s, c, 0)
        } else {
            next_dir(sp, b as int, s as int, c as int)
        },
        Cursor::File(b, s, c, e) => if yes {
            Cursor::FoundFile(b, s, c, e)
        } else if e + 1 < sp.exts().len() {
            Cursor::File(b, s, c, (e + 1) as usize)
        } else {
            next_dir(sp, b as int, s as int, c as int)
        },
        _ => cur,
    }
}

/// The probe that a search at `cur` waits for, if any.
pub open spec fn pending_probe(sp: IconSearchSpace, name: Seq<char>, cur: Cursor) -> Option<ProbeView> {
    match cur {
        Cursor::Direct => Some((ProbeKind::Exists, name)),
        Cursor::Base(b) => Some((ProbeKind::Exists, sp.bases()[b as int])),
        Cursor::Dir(b, s, c) => Some((ProbeKind::IsDir, dir_path(sp, b as int, s as int, c as int))),
        Cursor::File(b, s, c, e) => Some(
            (ProbeKind::Exists, file_path(sp, name, b as int, s as int, c as int, e as int)),
        ),
        _ => None,
    }
}

/// What a search at `cur` reports.
pub open spec fn step_at(sp: IconSearchSpace, name: Seq<char>, cur: Cursor) -> StepView {
    match cur {
        Cursor::FoundDirect => StepView::Found(name),
        Cursor::FoundFile(b, s, c, e) => StepView::Found(
            file_path(sp, name, b as int, s as int, c as int, e as int),
        ),
        Cursor::Done => StepView::NotFound,
        _ => {
            let p = pending_probe(sp, name, cur)->0;
            StepView::Probe(p.0, p.1)
        },
    }
}

/// The position up to which every candidate has been excluded.
pub open spec fn frontier(sp: IconSearchSpace, cur: Cursor) -> (int, int, int, int) {
    match cur {
        Cursor::Base(b) => (b as int, 0, 0, 0),
        Cursor::Dir(b, s, c) => (b as int, s as int, c as int, 0),
        Cursor::File(b, s, c, e) => (b as int, s as int, c as int, e as int),
        Cursor::FoundFile(b, s, c, e) => (b as int, s as int, c as int, e as int),
        _ => (sp.bases().len() as int, 0, 0, 0),
    }
}

/// An icon lookup in progress.
pub struct IconSearch {
    space: IconSearchSpace,
    icon_name: String,
    cursor: Cursor,
    confirmed: Ghost<Set<ProbeView>>,
    refuted: Ghost<Set<ProbeView>>,
}

impl IconSearch {
    pub closed spec fn space(&self) -> IconSearchSpace {
        self.space
    }

    pub closed spec fn name(&self) -> Seq<char> {
        self.icon_name@
    }

    pub closed spec fn cursor(&self) -> Cursor {
        self.cursor
    }

    /// The probes answered with yes so far.
    pub closed spec fn confirmed(&self) -> Set<ProbeView> {
        self.confirmed@
    }

    /// The probes answered with no so far.
    pub closed spec fn refuted(&self) -> Set<ProbeView> {
        self.refuted@
    }

    /// Every candidate before the frontier has been excluded by an answer.
    pub open spec fn frontier_cleared(&self) -> bool {
        let f = frontier(self.space(), self.cursor());
        forall|b: int, s: int, c: int, e: int|
            #![trigger ruled_out(self.space(), self.name(), self.refuted(), b, s, c, e)]
            in_space(self.space(), b, s, c, e) && precedes(b, s, c, e, f.0, f.1, f.2, f.3)
                ==> ruled_out(self.space(), self.name(), self.refuted(), b, s, c, e)
    }

    pub open spec fn cursor_in_range(&self) -> bool {
        let sp = self.space();
        &&& sp.bases().len() <= usize::MAX
        &&& sp.sizes().len() <= usize::MAX
        &&& sp.cats().len() <= usize::MAX
        &&& sp.exts().len() <= usize::MAX
        &&& match self.cursor() {
            Cursor::Base(b) => b < sp.bases().len(),
            Cursor::Dir(b, s, c) => b < sp.bases().len() && s < sp.sizes().len() && c
                < sp.cats().len(),
            Cursor::File(b, s, c, e) => in_space(sp, b as int, s as int, c as int, e as int),
            Cursor::FoundFile(b, s, c, e) => in_space(sp, b as int, s as int, c as int, e as int),
            _ => true,
        }
    }

    /// What the answers so far back: past the first probe the icon name is
    /// known not to exist as a path, every candidate before the frontier is
    /// excluded, and the base and directory of the current position, and the
    /// file of a found one, are confirmed.
    pub open spec fn wf(&self) -> bool {
        let sp = self.space();
        let name = self.name();
        &&& self.cursor_in_range()
        &&& (self.cursor() is Direct || self.cursor() is FoundDirect || self.refuted().contains(
            (ProbeKind::Exists, name),
        ))
        &&& (self.cursor() is FoundDirect ==> self.confirmed().contains((ProbeKind::Exists, name)))
        &&& (!(self.cursor() is Direct || self.cursor() is FoundDirect) ==> self.frontier_cleared())
        &&& match self.cursor() {
            Cursor::Dir(b, s, c) => self.confirmed().contains((ProbeKind::Exists, sp.bases()[b as int])),
            Cursor::File(b, s, c, e) => self.confirmed().contains(
                (ProbeKind::Exists, sp.bases()[b as int]),
            ) && self.confirmed().contains((ProbeKind::IsDir, dir_path(sp, b as int, s as int, c as int))),
            Cursor::FoundFile(b, s, c, e) => self.confirmed().contains(
                (ProbeKind::Exists, sp.bases()[b as int]),
            ) && self.confirmed().contains((ProbeKind::IsDir, dir_path(sp, b as int, s as int, c as int)))
                && self.confirmed().contains(
                (ProbeKind::Exists, file_path(sp, name, b as int, s as int, c as int, e as int)),
            ),
            _ => true,
        }
    }

    /// Starts a lookup of `icon_name` in `space`; its first probe asks whether
    /// the name itself is an existing path.
    pub fn new(space: IconSearchSpace, icon_name: String) -> (r: Self)
        ensures
            r.wf(),
            r.space() == space,
            r.name() == icon_name@,
            r.cursor() == Cursor::Direct,
            r.confirmed() == Set::<ProbeView>::empty(),
            r.refuted() == Set::<ProbeView>::empty(),
    {
        let nb: usize = space.base_directories.len();
        let ns: usize = space.size_buckets.len();
        let nc: usize = space.categories.len();
        let ne: usize = space.extensions.len();
        assert(nb == space.bases().len() && ns == space.sizes().len());
        assert(nc == space.cats().len() && ne == space.exts().len());
        IconSearch {
            space,
            icon_name,
            cursor: Cursor::Direct,
            confirmed: Ghost(Set::empty()),
            refuted: Ghost(Set::empty()),
        }
    }

    fn dir_path_exec(&self, b: usize, s: usize, c: usize) -> (r: String)
        requires
            b < self.space().bases().len(),
            s < self.space().sizes().len(),
            c < self.space().cats().len(),
        ensures
            r@ == dir_path(self.space(), b as int, s as int, c as int),
    {
        let sp = &self.space;
        proof {
            assert(sp.bases()[b as int] == sp.base_directories@[b as int]@);
            assert(sp.sizes()[s as int] == sp.size_buckets@[s as int]@);
            assert(sp.cats()[c as int] == sp.categories@[c as int]@);
        }
        let themed = join_path(sp.base_directories[b].as_str(), sp.theme_name.as_str());
        let sized = join_path(themed.as_str(), sp.size_buckets[s].as_str());
        join_path(sized.as_str(), sp.categories[c].as_str())
    }

    fn file_path_exec(&self, b: usize, s: usize, c: usize, e: usize) -> (r: String)
        requires
            in_space(self.space(), b as int, s as int, c as int, e as int),
        ensures
            r@ == file_path(self.space(), self.name(), b as int, s as int, c as int, e as int),
    {
        let dir = self.dir_path_exec(b, s, c);
        let mut file = self.icon_name.clone();
        file.append(".");
        file.append(self.space.extensions[e].as_str());
        proof {
            assert(self.space().exts()[e as int] == self.space.extensions@[e as int]@);
        }
        join_path(dir.as_str(), file.as_str())
    }

    fn next_base_exec(&self, b: usize) -> (r: Cursor)
        requires
            b <= self.space().bases().len(),
        ensures
            r == next_base(self.space(), b as int),
    {
        proof {
            assert(self.space().bases().len() == self.space.base_directories@.len());
            assert(self.space().sizes().len() == self.space.size_buckets@.len());
            assert(self.space().cats().len() == self.space.categories@.len());
            assert(self.space().exts().len() == self.space.extensions@.len());
        }
        if b < self.space.base_directories.len() {
            Cursor::Base(b)
        } else {
            Cursor::Done
        }
    }

    fn next_dir_exec(&self, b: usize, s: usize, c: usize) -> (r: Cursor)
        requires
            b < self.space().bases().len(),
            s < self.space().sizes().len(),
            c < self.space().cats().len(),
        ensures
            r == next_dir(self.space(), b as int, s as int, c as int),
    {
        proof {
            assert(self.space().bases().len() == self.space.base_directories@.len());
            assert(self.space().sizes().len() == self.space.size_buckets@.len());
            assert(self.space().cats().len() == self.space.categories@.len());
            assert(self.space().exts().len() == self.space.extensions@.len());
        }
        let nb: usize = self.space.base_directories.len();
        let nc: usize = self.space.categories.len();
        let ns: usize = self.space.size_buckets.len();
        assert(b < nb);
        if c + 1 < nc {
            Cursor::Dir(b, s, c + 1)
        } else if s + 1 < ns {
            Cursor::Dir(b, s + 1, 0)
        } else {
            self.next_base_exec(b + 1)
        }
    }

    fn advance_exec(&self, yes: bool) -> (r: Cursor)
        requires
            self.cursor_in_range(),
        ensures
            r == advance(self.space(), self.cursor(), yes),
    {
        proof {
            assert(self.space().bases().len() == self.space.base_directories@.len());
            assert(self.space().sizes().len() == self.space.size_buckets@.len());
            assert(self.space().cats().len() == self.space.categories@.len());
            assert(self.space().exts().len() == self.space.extensions@.len());
        }
        let nb: usize = self.space.base_directories.len();
        let ne: usize = self.space.extensions.len();
        match self.cursor {
            Cursor::Direct => if yes {
                Cursor::FoundDirect
            } else {
                self.next_base_exec(0)
            },
            Cursor::Base(b) => {
                assert(b < nb);
                if yes && self.space.size_buckets.len() > 0 && self.space.categories.len() > 0 {
                    Cursor::Dir(b, 0, 0)
                } else {
                    self.next_base_exec(b + 1)
                }
            },
            Cursor::Dir(b, s, c) => if yes && self.space.extensions.len() > 0 {
                Cursor::File(b, s, c, 0)
            } else {
                self.next_dir_exec(b, s, c)
            },
            Cursor::File(b, s, c, e) => if yes {
                Cursor::FoundFile(b, s, c, e)
            } else if e + 1 < ne {
                Cursor::File(b, s, c, e + 1)
            } else {
                self.next_dir_exec(b, s, c)
            },
            other => other,
        }
    }

    /// What the search needs or has now: the probe to answer next, the
    /// resolved path, or the report that nothing was found.
    pub fn pending(&self) -> (r: SearchStep)
        requires
            self.wf(),
        ensures
            r@ == step_at(self.space(), self.name(), self.cursor()),
    {
        match self.cursor {
            Cursor::Direct => SearchStep::Probe(ProbeKind::Exists, self.icon_name.clone()),
            Cursor::Base(b) => {
                proof {
                    assert(self.space().bases()[b as int] == self.space.base_directories@[b as int]@);
                }
                SearchStep::Probe(ProbeKind::Exists, self.space.base_directories[b].clone())
            },
            Cursor::Dir(b, s, c) => SearchStep::Probe(ProbeKind::IsDir, self.dir_path_exec(b, s, c)),
            Cursor::File(b, s, c, e) => SearchStep::Probe(
                ProbeKind::Exists,
                self.file_path_exec(b, s, c, e),
            ),
            Cursor::FoundDirect => SearchStep::Found(self.icon_name.clone()),
            Cursor::FoundFile(b, s, c, e) => SearchStep::Found(self.file_path_exec(b, s, c, e)),
            Cursor::Done => SearchStep::NotFound,
        }
    }

    /// Takes the host's answer to the pending probe and moves the search on;
    /// once the search has a result, answers change nothing.
    pub fn answer(&mut self, yes: bool)
        requires
            old(self).wf(),
        ensures
            final(self).wf(),
            final(self).space() == old(self).space(),
            final(self).name() == old(self).name(),
            final(self).cursor() == advance(old(self).space(), old(self).cursor(), yes),
            pending_probe(old(self).space(), old(self).name(), old(self).cursor()) is Some ==> 0
                <= probes_left(final(self).space(), final(self).cursor()) < probes_left(
                old(self).space(),
                old(self).cursor(),
            ),
            final(self).confirmed() == (match pending_probe(old(self).space(), old(self).name(), old(self).cursor()) {
                Some(p) => if yes {
                    old(self).confirmed().insert(p)
                } else {
                    old(self).confirmed()
                },
                None => old(self).confirmed(),
            }),
            final(self).refuted() == (match pending_probe(old(self).space(), old(self).name(), old(self).cursor()) {
                Some(p) => if yes {
                    old(self).refuted()
                } else {
                    old(self).refuted().insert(p)
                },
                None => old(self).refuted(),
            }),
    {
        let ghost before = *self;
        let ghost probe = pending_probe(self.space(), self.name(), self.cursor());
        let next = self.advance_exec(yes);
        self.cursor = next;
        self.confirmed = Ghost(
            if yes && probe is Some {
                self.confirmed@.insert(probe->0)
            } else {
                self.confirmed@
            },
        );
        self.refuted = Ghost(
            if !yes && probe is Some {
                self.refuted@.insert(probe->0)
            } else {
                self.refuted@
            },
        );
        proof {
            lemma_answer_keeps_wf(before, *self, yes);
            if probe is Some {
                lemma_answer_lowers_probes_left(before, yes);
            }
        }
    }
}

proof fn lemma_answer_keeps_wf(a: IconSearch, z: IconSearch, yes: bool)
    requires
        a.wf(),
        z.space() == a.space(),
        z.name() == a.name(),
        z.cursor() == advance(a.space(), a.cursor(), yes),
        z.confirmed() == (match pending_probe(a.space(), a.name(), a.cursor()) {
            Some(p) => if yes {
                a.confirmed().insert(p)
            } else {
                a.confirmed()
            },
            None => a.confirmed(),
        }),
        z.refuted() == (match pending_probe(a.space(), a.name(), a.cursor()) {
            Some(p) => if yes {
                a.refuted()
            } else {
                a.refuted().insert(p)
            },
            None => a.refuted(),
        }),
    ensures
        z.wf(),
{
    let sp = a.space();
    let name = a.name();
    let f0 = frontier(sp, a.cursor());
    let f1 = frontier(sp, z.cursor());
    assert(a.refuted().subset_of(z.refuted()));
    assert(a.confirmed().subset_of(z.confirmed()));
    match a.cursor() {
        Cursor::Direct => {
            if !yes {
                assert forall|b: int, s: int, c: int, e: int|
                    #![trigger ruled_out(sp, name, z.refuted(), b, s, c, e)]
                    in_space(sp, b, s, c, e) && precedes(b, s, c, e, f1.0, f1.1, f1.2, f1.3)
                        implies ruled_out(sp, name, z.refuted(), b, s, c, e) by {}
            }
        },
        Cursor::Base(bb) => {
            assert forall|b: int, s: int, c: int, e: int|
                #![trigger ruled_out(sp, name, z.refuted(), b, s, c, e)]
                in_space(sp, b, s, c, e) && precedes(b, s, c, e, f1.0, f1.1, f1.2, f1.3)
                    implies ruled_out(sp, name, z.refuted(), b, s, c, e) by {
                if precedes(b, s, c, e, f0.0, f0.1, f0.2, f0.3) {
                    assert(ruled_out(sp, name, a.refuted(), b, s, c, e));
                }
            }
        },
        Cursor::Dir(bb, ss, cc) => {
            assert forall|b: int, s: int, c: int, e: int|
                #![trigger ruled_out(sp, name, z.refuted(), b, s, c, e)]
                in_space(sp, b, s, c, e) && precedes(b, s, c, e, f1.0, f1.1, f1.2, f1.3)
                    implies ruled_out(sp, name, z.refuted(), b, s, c, e) by {
                if precedes(b, s, c, e, f0.0, f0.1, f0.2, f0.3) {
                    assert(ruled_out(sp, name, a.refuted(), b, s, c, e));
                }
            }
        },
        Cursor::File(bb, ss, cc, ee) => {
            assert forall|b: int, s: int, c: int, e: int|
                #![trigger ruled_out(sp, name, z.refuted(), b, s, c, e)]
                in_space(sp, b, s, c, e) && precedes(b, s, c, e, f1.0, f1.1, f1.2, f1.3)
                    implies ruled_out(sp, name, z.refuted(), b, s, c, e) by {
                if precedes(b, s, c, e, f0.0, f0.1, f0.2, f0.3) {
                    assert(ruled_out(sp, name, a.refuted(), b, s, c, e));
                }
            }
        },
        _ => {
            if !(a.cursor() is FoundDirect) {
                assert(z.cursor() == a.cursor());
                assert forall|b: int, s: int, c: int, e: int|
                    #![trigger ruled_out(sp, name, z.refuted(), b, s, c, e)]
                    in_space(sp, b, s, c, e) && precedes(b, s, c, e, f1.0, f1.1, f1.2, f1.3)
                        implies ruled_out(sp, name, z.refuted(), b, s, c, e) by {
                    assert(ruled_out(sp, name, a.refuted(), b, s, c, e));
                }
            }
        },
    }
}

/// When the icon name is itself an existing path, the search asks that one
/// question and reports the name unchanged: no theme directory is probed.
pub proof fn lemma_existing_path_short_circuits(sp: IconSearchSpace, name: Seq<char>)
    ensures
        pending_probe(sp, name, Cursor::Direct) == Some((ProbeKind::Exists, name)),
        advance(sp, Cursor::Direct, true) == Cursor::FoundDirect,
        step_at(sp, name, advance(sp, Cursor::Direct, true)) == StepView::Found(name),
{
}

/// A search that reports nothing found has been told that the name is not an
/// existing path, and has excluded every candidate of the space by a negative
/// answer; reaching this is no error, only an empty result.
pub proof fn lemma_not_found_excludes_everything(search: IconSearch)
    requires
        search.wf(),
        step_at(search.space(), search.name(), search.cursor()) == StepView::NotFound,
    ensures
        search.refuted().contains((ProbeKind::Exists, search.name())),
        forall|b: int, s: int, c: int, e: int|
            #![trigger ruled_out(search.space(), search.name(), search.refuted(), b, s, c, e)]
            in_space(search.space(), b, s, c, e) ==> ruled_out(
                search.space(),
                search.name(),
                search.refuted(),
                b,
                s,
                c,
                e,
            ),
{
    let sp = search.space();
    assert forall|b: int, s: int, c: int, e: int|
        #![trigger ruled_out(sp, search.name(), search.refuted(), b, s, c, e)]
        in_space(sp, b, s, c, e) implies ruled_out(sp, search.name(), search.refuted(), b, s, c, e) by {
        let f = frontier(sp, search.cursor());
        assert(precedes(b, s, c, e, f.0, f.1, f.2, f.3));
    }
}

/// A file found in the theme tree is the earliest candidate in (base, size,
/// category, extension) order: its base, directory and file were confirmed,
/// and every candidate before it was excluded by a negative answer.
pub proof fn lemma_found_file_is_first_match(search: IconSearch, b: usize, s: usize, c: usize, e: usize)
    requires
        search.wf(),
        search.cursor() == Cursor::FoundFile(b, s, c, e),
    ensures
        step_at(search.space(), search.name(), search.cursor()) == StepView::Found(
            file_path(search.space(), search.name(), b as int, s as int, c as int, e as int),
        ),
        search.confirmed().contains((ProbeKind::Exists, search.space().bases()[b as int])),
        search.confirmed().contains(
            (ProbeKind::IsDir, dir_path(search.space(), b as int, s as int, c as int)),
        ),
        search.confirmed().contains(
            (
                ProbeKind::Exists,
                file_path(search.space(), search.name(), b as int, s as int, c as int, e as int),
            ),
        ),
        forall|b2: int, s2: int, c2: int, e2: int|
            #![trigger ruled_out(search.space(), search.name(), search.refuted(), b2, s2, c2, e2)]
            in_space(search.space(), b2, s2, c2, e2) && precedes(
                b2,
                s2,
                c2,
                e2,
                b as int,
                s as int,
                c as int,
                e as int,
            ) ==> ruled_out(search.space(), search.name(), search.refuted(), b2, s2, c2, e2),
{
}

/// A file is only ever probed beneath a base and a directory that were both
/// confirmed to exist: a missing `theme/size/category` directory prunes every
/// extension below it.
pub proof fn lemma_file_probe_needs_confirmed_dir(search: IconSearch, b: usize, s: usize, c: usize, e: usize)
    requires
        search.wf(),
        search.cursor() == Cursor::File(b, s, c, e),
    ensures
        pending_probe(search.space(), search.name(), search.cursor()) == Some(
            (
                ProbeKind::Exists,
                file_path(search.space(), search.name(), b as int, s as int, c as int, e as int),
            ),
        ),
        search.confirmed().contains((ProbeKind::Exists, search.space().bases()[b as int])),
        search.confirmed().contains(
            (ProbeKind::IsDir, dir_path(search.space(), b as int, s as int, c as int)),
        ),
{
}

/// A negative answer about a `base/theme/size/category` directory moves the
/// search past every extension beneath it.
pub proof fn lemma_missing_dir_skips_its_files(sp: IconSearchSpace, b: usize, s: usize, c: usize)
    ensures
        advance(sp, Cursor::Dir(b, s, c), false) == next_dir(sp, b as int, s as int, c as int),
        !(next_dir(sp, b as int, s as int, c as int) is File),
{
}

/// Probes that one base directory can cost: its own, and for each size and
/// category one directory probe and one per extension.
pub open spec fn probes_per_base(sp: IconSearchSpace) -> int {
    (1 + sp.sizes().len() * sp.cats().len() * (1 + sp.exts().len())) as int
}

/// Probes spent inside a base directory before the directory probe of `(s, c)`.
pub open spec fn dir_offset(sp: IconSearchSpace, s: int, c: int) -> int {
    1 + (s * sp.cats().len() + c) * (1 + sp.exts().len() as int)
}

/// An upper bound on the probes a search at `cur` can still ask.
pub open spec fn probes_left(sp: IconSearchSpace, cur: Cursor) -> int {
    let nb = sp.bases().len() as int;
    match cur {
        Cursor::Direct => nb * probes_per_base(sp) + 1,
        Cursor::Base(b) => (nb - b) * probes_per_base(sp),
        Cursor::Dir(b, s, c) => (nb - b) * probes_per_base(sp) - dir_offset(sp, s as int, c as int),
        Cursor::File(b, s, c, e) => (nb - b) * probes_per_base(sp) - dir_offset(
            sp,
            s as int,
            c as int,
        ) - 1 - e,
        _ => 0,
    }
}

proof fn lemma_dir_offset_bounds(sp: IconSearchSpace, s: int, c: int)
    requires
        0 <= s < sp.sizes().len(),
        0 <= c < sp.cats().len(),
    ensures
        dir_offset(sp, s, c) + sp.exts().len() < probes_per_base(sp),
        dir_offset(sp, s, c) >= 1,
{
    let nc = sp.cats().len() as int;
    let ns = sp.sizes().len() as int;
    let k = 1 + sp.exts().len() as int;
    assert(s * nc + c + 1 <= ns * nc) by (nonlinear_arith)
        requires
            0 <= s < ns,
            0 <= c < nc,
    ;
    assert((s * nc + c + 1) * k <= ns * nc * k) by (nonlinear_arith)
        requires
            s * nc + c + 1 <= ns * nc,
            k >= 1,
    ;
    assert((s * nc + c) * k >= 0) by (nonlinear_arith)
        requires
            s >= 0,
            c >= 0,
            nc >= 0,
            k >= 1,
    ;
    assert((s * nc + c + 1) * k == (s * nc + c) * k + k) by (nonlinear_arith);
}

proof fn lemma_base_share(nb: int, b: int, p: int)
    requires
        0 <= b < nb,
        p >= 1,
    ensures
        (nb - b) * p == (nb - b - 1) * p + p,
        (nb - b - 1) * p >= 0,
{
    assert((nb - b) * p == (nb - b - 1) * p + p) by (nonlinear_arith);
    assert((nb - b - 1) * p >= 0) by (nonlinear_arith)
        requires
            nb - b - 1 >= 0,
            p >= 1,
    ;
}

/// Moving from directory position `(s, c)` to the next one inside a base
/// directory skips at least the probes of `(s, c)` and its extensions.
proof fn lemma_next_dir_offset(sp: IconSearchSpace, s: int, c: int)
    requires
        0 <= s < sp.sizes().len(),
        0 <= c < sp.cats().len(),
    ensures
        c + 1 < sp.cats().len() ==> dir_offset(sp, s, c + 1) == dir_offset(sp, s, c) + 1
            + sp.exts().len(),
        c + 1 == sp.cats().len() && s + 1 < sp.sizes().len() ==> dir_offset(sp, s + 1, 0)
            == dir_offset(sp, s, c) + 1 + sp.exts().len(),
{
    let nc = sp.cats().len() as int;
    let k = 1 + sp.exts().len() as int;
    assert((s * nc + c + 1) * k == (s * nc + c) * k + k) by (nonlinear_arith);
    if c + 1 == nc {
        assert((s + 1) * nc == s * nc + c + 1) by (nonlinear_arith)
            requires
                c + 1 == nc,
        ;
    }
}

proof fn lemma_probes_left_drops(sp: IconSearchSpace, name: Seq<char>, cur: Cursor, yes: bool)
    requires
        sp.bases().len() <= usize::MAX,
        sp.sizes().len() <= usize::MAX,
        sp.cats().len() <= usize::MAX,
        sp.exts().len() <= usize::MAX,
        pending_probe(sp, name, cur) is Some,
        match cur {
            Cursor::Base(b) => b < sp.bases().len(),
            Cursor::Dir(b, s, c) => b < sp.bases().len() && s < sp.sizes().len() && c
                < sp.cats().len(),
            Cursor::File(b, s, c, e) => in_space(sp, b as int, s as int, c as int, e as int),
            _ => true,
        },
    ensures
        0 <= probes_left(sp, advance(sp, cur, yes)) < probes_left(sp, cur),
{
    let nb = sp.bases().len() as int;
    let k = 1 + sp.exts().len() as int;
    let p = probes_per_base(sp);
    assert(p >= 1) by (nonlinear_arith)
        requires
            p == 1 + sp.sizes().len() * sp.cats().len() * k,
            k >= 1,
    ;
    match cur {
        Cursor::Direct => {
            assert(nb * p >= 0) by (nonlinear_arith)
                requires
                    nb >= 0,
                    p >= 1,
            ;
        },
        Cursor::Base(b) => {
            lemma_base_share(nb, b as int, p);
            if sp.sizes().len() > 0 && sp.cats().len() > 0 {
                lemma_dir_offset_bounds(sp, 0, 0);
            }
        },
        Cursor::Dir(b, s, c) => {
            lemma_base_share(nb, b as int, p);
            lemma_dir_offset_bounds(sp, s as int, c as int);
            lemma_next_dir_offset(sp, s as int, c as int);
            if c + 1 < sp.cats().len() {
                lemma_dir_offset_bounds(sp, s as int, c + 1);
            } else if s + 1 < sp.sizes().len() {
                lemma_dir_offset_bounds(sp, s + 1, 0);
            }
        },
        Cursor::File(b, s, c, e) => {
            lemma_base_share(nb, b as int, p);
            lemma_dir_offset_bounds(sp, s as int, c as int);
            lemma_next_dir_offset(sp, s as int, c as int);
            if c + 1 < sp.cats().len() {
                lemma_dir_offset_bounds(sp, s as int, c + 1);
            } else if s + 1 < sp.sizes().len() {
                lemma_dir_offset_bounds(sp, s + 1, 0);
            }
        },
        _ => {},
    }
}

/// Every answer to a pending probe lowers the bound on the probes left, so a
/// search asks at most `probes_left` of its start before it reports.
pub proof fn lemma_answer_lowers_probes_left(search: IconSearch, yes: bool)
    requires
        search.wf(),
        pending_probe(search.space(), search.name(), search.cursor()) is Some,
    ensures
        0 <= probes_left(search.space(), advance(search.space(), search.cursor(), yes)),
        probes_left(search.space(), advance(search.space(), search.cursor(), yes)) < probes_left(
            search.space(),
            search.cursor(),
        ),
{
    lemma_probes_left_drops(search.space(), search.name(), search.cursor(), yes);
}

} // verus!
