//! The content store: page path to converted Markdown, and the assembly of
//! the final document from it.
use vstd::prelude::*;
use crate::links::PageUrl;
use crate::text::same_text;

verus! {

/// Converted pages, keyed by path. Each path occurs at most once; entries
/// keep the order in which their path was first stored.
pub struct ContentStore {
    pub entries: Vec<(String, String)>,
}

/// One stored page, as (path, markdown).
pub type Entry = (Seq<char>, Seq<char>);

/// The entries as plain character sequences.
pub open spec fn entries_view(entries: Seq<(String, String)>) -> Seq<Entry> {
    entries.map_values(|e: (String, String)| (e.0@, e.1@))
}

/// The content stored under `path`, if any.
pub open spec fn lookup(s: Seq<Entry>, path: Seq<char>) -> Option<Seq<char>>
    decreases s.len(),
{
    if s.len() == 0 {
        None
    } else if s.last().0 == path {
        Some(s.last().1)
    } else {
        lookup(s.drop_last(), path)
    }
}

/// No path is stored twice.
pub open spec fn keys_unique(s: Seq<Entry>) -> bool {
    forall|i: int, j: int| 0 <= i < j < s.len() ==> s[i].0 != s[j].0
}

/// The entries after storing `md` under `path`: an existing entry for the
/// path is overwritten in place, otherwise a new one is appended.
pub open spec fn store_spec(s: Seq<Entry>, path: Seq<char>, md: Seq<char>) -> Seq<Entry> {
    if exists|i: int| 0 <= i < s.len() && s[i].0 == path {
        let i = choose|i: int| 0 <= i < s.len() && s[i].0 == path;
        s.update(i, (path, md))
    } else {
        s.push((path, md))
    }
}

/// The section of the seed page: a top-level heading with the full base
/// address, then its content; nothing when the seed page is not stored.
pub open spec fn seed_section(s: Seq<Entry>, base_text: Seq<char>, base_path: Seq<char>) -> Seq<char> {
    match lookup(s, base_path) {
        Some(c) => "# "@ + base_text + "\n\n"@ + c + "\n\n"@,
        None => Seq::<char>::empty(),
    }
}

/// The section of one page other than the seed: a second-level heading
/// with its path, then its content.
pub open spec fn page_section(e: Entry) -> Seq<char> {
    "## "@ + e.0 + "\n\n"@ + e.1 + "\n\n"@
}

/// The sections of all stored pages but the seed, in store order.
pub open spec fn other_sections(s: Seq<Entry>, base_path: Seq<char>) -> Seq<char>
    decreases s.len(),
{
    if s.len() == 0 {
        Seq::<char>::empty()
    } else {
        other_sections(s.drop_last(), base_path) + if s.last().0 == base_path {
            Seq::<char>::empty()
        } else {
            page_section(s.last())
        }
    }
}

/// The paths that get a second-level section, in document order.
pub open spec fn section_paths(s: Seq<Entry>, base_path: Seq<char>) -> Seq<Seq<char>>
    decreases s.len(),
{
    if s.len() == 0 {
        Seq::<Seq<char>>::empty()
    } else {
        section_paths(s.drop_last(), base_path) + if s.last().0 == base_path {
            Seq::<Seq<char>>::empty()
        } else {
            seq![s.last().0]
        }
    }
}

/// The assembled document: the seed page first, then every other stored
/// page.
pub open spec fn document(s: Seq<Entry>, base_text: Seq<char>, base_path: Seq<char>) -> Seq<char> {
    seed_section(s, base_text, base_path) + other_sections(s, base_path)
}

impl ContentStore {
    pub open spec fn view(&self) -> Seq<Entry> {
        entries_view(self.entries@)
    }

    /// No path is stored twice.
    pub open spec fn wf(&self) -> bool {
        keys_unique(self.view())
    }

    /// An empty store.
    pub fn new() -> (r: ContentStore)
        ensures
            r.view() == Seq::<Entry>::empty(),
            r.wf(),
    {
        let r = ContentStore { entries: Vec::new() };
        assert(r.view() =~= Seq::<Entry>::empty());
        r
    }

    /// The number of stored pages.
    pub fn len(&self) -> (r: usize)
        ensures
            r == self.view().len(),
    {
        self.entries.len()
    }

    /// The position of `path` among the entries, if stored.
    fn position(&self, path: &str) -> (r: Option<usize>)
        ensures
            r matches Some(i) ==> i < self.view().len() && self.view()[i as int].0 == path@,
            r is None ==> forall|i: int| 0 <= i < self.view().len() ==> self.view()[i].0 != path@,
    {
        let mut i: usize = 0;
        while i < self.entries.len()
            invariant
                i <= self.entries@.len(),
                forall|k: int| 0 <= k < i ==> self.view()[k].0 != path@,
            decreases self.entries@.len() - i,
        {
            if same_text(self.entries[i].0.as_str(), path) {
                return Some(i);
            }
            i = i + 1;
        }
        None
    }

    /// The content stored under `path`, if any.
    pub fn get(&self, path: &str) -> (r: Option<&String>)
        requires
            self.wf(),
        ensures
            match r {
                Some(c) => lookup(self.view(), path@) == Some(c@),
                None => lookup(self.view(), path@) is None,
            },
    {
        proof {
            lemma_lookup_unique(self.view(), path@);
        }
        match self.position(path) {
            Some(i) => Some(&self.entries[i].1),
            None => None,
        }
    }

    /// Stores `markdown` under `path`, replacing what was stored there.
    pub fn store(&mut self, path: String, markdown: String)
        requires
            old(self).wf(),
        ensures
            final(self).wf(),
            final(self).view() == store_spec(old(self).view(), path@, markdown@),
    {
        let ghost s = self.view();
        match self.position(path.as_str()) {
            Some(i) => {
                let ghost p = path@;
                self.entries.set(i, (path, markdown));
                proof {
                    assert(s[i as int].0 == p);
                    assert(self.view() =~= s.update(i as int, (p, markdown@)));
                }
            },
            None => {
                let ghost p = path@;
                self.entries.push((path, markdown));
                proof {
                    assert(self.view() =~= s.push((p, markdown@)));
                }
            },
        }
    }

    /// The assembled document: the seed page's content under a top-level
    /// heading with the full base address, then each other stored page under
    /// a second-level heading with its path. Pages never stored are absent.
    pub fn assemble_document(&self, base: &PageUrl) -> (r: String)
        requires
            self.wf(),
        ensures
            r@ == document(self.view(), base.text@, base.path@),
    {
        let mut out = String::new();
        proof {
            reveal_strlit("# ");
            reveal_strlit("## ");
            reveal_strlit("\n\n");
        }
        match self.get(base.path.as_str()) {
            Some(c) => {
                out.append("# ");
                out.append(base.text.as_str());
                out.append("\n\n");
                out.append(c.as_str());
                out.append("\n\n");
            },
            None => {},
        }
        assert(out@ =~= seed_section(self.view(), base.text@, base.path@));
        let mut i: usize = 0;
        while i < self.entries.len()
            invariant
                i <= self.entries@.len(),
                out@ == seed_section(self.view(), base.text@, base.path@) + other_sections(
                    self.view().take(i as int),
                    base.path@,
                ),
            decreases self.entries@.len() - i,
        {
            let ghost before = out@;
            let ghost t = self.view().take(i as int + 1);
            assert(t.drop_last() =~= self.view().take(i as int));
            if !same_text(self.entries[i].0.as_str(), base.path.as_str()) {
                out.append("## ");
                out.append(self.entries[i].0.as_str());
                out.append("\n\n");
                out.append(self.entries[i].1.as_str());
                out.append("\n\n");
                assert(out@ =~= before + page_section(t.last()));
            } else {
                assert(out@ =~= before + Seq::<char>::empty());
            }
            i = i + 1;
        }
        assert(self.view().take(self.entries@.len() as int) =~= self.view());
        out
    }
}

/// With unique paths, the entry found by `lookup` is the one entry with that
/// path.
pub proof fn lemma_lookup_unique(s: Seq<Entry>, path: Seq<char>)
    requires
        keys_unique(s),
    ensures
        forall|i: int| 0 <= i < s.len() && s[i].0 == path ==> lookup(s, path) == Some(s[i].1),
        (forall|i: int| 0 <= i < s.len() ==> s[i].0 != path) ==> lookup(s, path) is None,
    decreases s.len(),
{
    if s.len() > 0 {
        lemma_lookup_unique(s.drop_last(), path);
        assert forall|i: int| 0 <= i < s.len() && s[i].0 == path implies lookup(s, path) == Some(
            s[i].1,
        ) by {
            if i < s.len() - 1 {
                assert(s.drop_last()[i] == s[i]);
            }
        }
    }
}

/// Assembling the document reads the store without changing it: two
/// assemblies with no store in between give the same text.
pub proof fn lemma_assemble_idempotent(store: ContentStore, base: PageUrl, r1: Seq<char>, r2: Seq<char>)
    requires
        r1 == document(store.view(), base.text@, base.path@),
        r2 == document(store.view(), base.text@, base.path@),
    ensures
        r1 == r2,
{
}

/// The document opens with the seed page's section when the seed page is
/// stored, and only stored pages get a section.
pub proof fn lemma_document_layout(s: Seq<Entry>, base_text: Seq<char>, base_path: Seq<char>)
    ensures
        lookup(s, base_path) matches Some(c) ==> document(s, base_text, base_path).take(
            ("# "@ + base_text + "\n\n"@ + c).len() as int,
        ) == "# "@ + base_text + "\n\n"@ + c,
        forall|p: Seq<char>| #[trigger]
            section_paths(s, base_path).contains(p) ==> p != base_path && lookup(s, p) is Some,
    decreases s.len(),
{
    if let Some(c) = lookup(s, base_path) {
        let head = "# "@ + base_text + "\n\n"@ + c;
        assert(document(s, base_text, base_path) =~= head + ("\n\n"@ + other_sections(s, base_path)));
        assert((head + ("\n\n"@ + other_sections(s, base_path))).take(head.len() as int) =~= head);
    }
    if s.len() > 0 {
        lemma_document_layout(s.drop_last(), base_text, base_path);
        assert forall|p: Seq<char>| #[trigger]
            section_paths(s, base_path).contains(p) implies p != base_path && lookup(s, p) is Some by {
            let prev = section_paths(s.drop_last(), base_path);
            if s.last().0 != base_path {
                if prev.contains(p) {
                } else {
                    let k = choose|k: int| 0 <= k < section_paths(s, base_path).len() && section_paths(s, base_path)[k] == p;
                    assert(k >= prev.len());
                }
            } else {
                assert(section_paths(s, base_path) =~= prev);
            }
        }
    }
}

} // verus!
