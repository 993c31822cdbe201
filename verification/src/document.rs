use vstd::prelude::*;

verus! {

/// One named entry of the fetched document. Its only modelled field is
/// the optional image URL, called `dhd` in the source payload; every
/// other field of an entry is ignored.
pub struct SubProperty {
    pub dhd: Option<String>,
}

impl View for SubProperty {
    type V = Option<Seq<char>>;

    open spec fn view(&self) -> Option<Seq<char>> {
        match self.dhd {
            Some(ref u) => Some(u@),
            None => None,
        }
    }
}

/// The parsed metadata document: named entries held in one fixed
/// iteration order, with pairwise distinct names. Every pass over the
/// document (counting and downloading) walks this one order, so the
/// two passes cannot disagree.
pub struct Document {
    pub entries: Vec<(String, SubProperty)>,
}

impl View for Document {
    type V = Seq<(Seq<char>, Option<Seq<char>>)>;

    open spec fn view(&self) -> Seq<(Seq<char>, Option<Seq<char>>)> {
        Seq::new(self.entries@.len(), |i: int| (self.entries@[i].0@, self.entries@[i].1@))
    }
}

/// Whether some entry of `d` is named `k`.
pub open spec fn spec_contains_key(d: Seq<(Seq<char>, Option<Seq<char>>)>, k: Seq<char>) -> bool {
    exists|i: int| 0 <= i < d.len() && d[i].0 == k
}

/// Whether the entry names of `d` are pairwise distinct.
pub open spec fn distinct_keys(d: Seq<(Seq<char>, Option<Seq<char>>)>) -> bool {
    forall|i: int, j: int| 0 <= i < j < d.len() ==> d[i].0 != d[j].0
}

/// The number of entries of `d` whose image URL is present.
pub open spec fn spec_count_images(d: Seq<(Seq<char>, Option<Seq<char>>)>) -> nat
    decreases d.len(),
{
    if d.len() == 0 {
        0
    } else {
        spec_count_images(d.drop_last()) + (if d.last().1 is Some {
            1nat
        } else {
            0nat
        })
    }
}

/// The image URLs of `d`, in entry order, one per entry whose URL is
/// present: the sequence of downloads one run attempts.
pub open spec fn spec_image_urls(d: Seq<(Seq<char>, Option<Seq<char>>)>) -> Seq<Seq<char>>
    decreases d.len(),
{
    if d.len() == 0 {
        Seq::empty()
    } else {
        spec_image_urls(d.drop_last()) + (if d.last().1 is Some {
            seq![d.last().1->Some_0]
        } else {
            Seq::empty()
        })
    }
}

/// The view of a sequence of owned URL strings.
pub open spec fn urls_view(v: Seq<String>) -> Seq<Seq<char>> {
    Seq::new(v.len(), |i: int| v[i]@)
}

impl Document {
    /// Entry names are pairwise distinct.
    pub open spec fn wf(&self) -> bool {
        distinct_keys(self@)
    }

    /// An empty document.
    pub fn new() -> (d: Document)
        ensures
            d@ =~= Seq::<(Seq<char>, Option<Seq<char>>)>::empty(),
            d.wf(),
    {
        Document { entries: Vec::new() }
    }

    /// Whether the document already has an entry named `key`.
    pub fn contains_key(&self, key: &String) -> (b: bool)
        ensures
            b == spec_contains_key(self@, key@),
    {
        let len = self.entries.len();
        let mut i: usize = 0;
        while i < len
            invariant
                i <= len,
                len == self.entries@.len(),
                forall|j: int| 0 <= j < i ==> self@[j].0 != key@,
            decreases len - i,
        {
            if self.entries[i].0 == *key {
                proof {
                    assert(self@[i as int].0 == key@);
                }
                return true;
            }
            i += 1;
        }
        false
    }

    /// Appends an entry. The new name must not already be present, so
    /// that names stay pairwise distinct.
    pub fn push_entry(&mut self, key: String, sub: SubProperty)
        requires
            old(self).wf(),
            !spec_contains_key(old(self)@, key@),
        ensures
            final(self)@ =~= old(self)@.push((key@, sub@)),
            final(self).wf(),
    {
        self.entries.push((key, sub));
        proof {
            let new = self@;
            let prior = old(self)@;
            assert(new =~= prior.push((key@, sub@)));
            assert forall|i: int, j: int| 0 <= i < j < new.len() implies new[i].0 != new[j].0 by {
                if j < new.len() - 1 {
                    assert(prior[i].0 != prior[j].0);
                } else {
                    assert(new[i].0 == prior[i].0);
                    assert(!spec_contains_key(prior, key@));
                    assert(prior[i].0 != key@);
                }
            }
        }
    }
}

/// Counts the entries of `doc` whose image URL is present: the number
/// of downloads one run attempts, and the progress display's total.
pub fn count_images(doc: &Document) -> (n: usize)
    ensures
        n as nat == spec_count_images(doc@),
{
    let len = doc.entries.len();
    let mut n: usize = 0;
    let mut i: usize = 0;
    while i < len
        invariant
            i <= len,
            n <= i,
            len == doc.entries@.len(),
            n as nat == spec_count_images(doc@.take(i as int)),
        decreases len - i,
    {
        if doc.entries[i].1.dhd.is_some() {
            n += 1;
        }
        proof {
            assert(doc@.take(i as int + 1).drop_last() =~= doc@.take(i as int));
            assert(doc@.take(i as int + 1).last() == doc@[i as int]);
        }
        i += 1;
    }
    proof {
        assert(doc@.take(len as int) =~= doc@);
    }
    n
}

/// Collects the image URLs of `doc`, one per entry whose URL is
/// present, in the document's entry order.
pub fn image_urls(doc: &Document) -> (urls: Vec<String>)
    ensures
        urls_view(urls@) == spec_image_urls(doc@),
{
    let len = doc.entries.len();
    let mut urls: Vec<String> = Vec::new();
    let mut i: usize = 0;
    while i < len
        invariant
            i <= len,
            len == doc.entries@.len(),
            urls_view(urls@) == spec_image_urls(doc@.take(i as int)),
        decreases len - i,
    {
        match &doc.entries[i].1.dhd {
            Some(u) => {
                urls.push(u.clone());
            },
            None => {},
        }
        proof {
            assert(doc@.take(i as int + 1).drop_last() =~= doc@.take(i as int));
            assert(doc@.take(i as int + 1).last() == doc@[i as int]);
            assert(urls_view(urls@) =~= spec_image_urls(doc@.take(i as int + 1)));
        }
        i += 1;
    }
    proof {
        assert(doc@.take(len as int) =~= doc@);
    }
    urls
}

/// No more images are counted than the document has entries.
pub proof fn lemma_count_le_len(d: Seq<(Seq<char>, Option<Seq<char>>)>)
    ensures
        spec_count_images(d) <= d.len(),
    decreases d.len(),
{
    if d.len() > 0 {
        lemma_count_le_len(d.drop_last());
    }
}

/// Whether some entry of `d` has `u` as its present image URL.
pub open spec fn spec_has_url(d: Seq<(Seq<char>, Option<Seq<char>>)>, u: Seq<char>) -> bool {
    exists|i: int| 0 <= i < d.len() && d[i].1 == Some(u)
}

/// Membership agrees between the two passes over one document: every
/// URL the download pass attempts is the present image URL of some
/// entry, and the image URL of every entry the count pass counts is
/// attempted.
pub proof fn lemma_passes_agree_on_membership(d: Seq<(Seq<char>, Option<Seq<char>>)>)
    ensures
        forall|k: int|
            0 <= k < spec_image_urls(d).len() ==> spec_has_url(d, #[trigger] spec_image_urls(d)[k]),
        forall|i: int|
            0 <= i < d.len() && #[trigger] d[i].1 is Some ==> spec_image_urls(d).contains(
                d[i].1->Some_0,
            ),
    decreases d.len(),
{
    if d.len() > 0 {
        let p = d.drop_last();
        let urls = spec_image_urls(d);
        let purls = spec_image_urls(p);
        lemma_passes_agree_on_membership(p);
        assert forall|k: int| 0 <= k < urls.len() implies spec_has_url(d, #[trigger] urls[k]) by {
            if k < purls.len() {
                assert(spec_has_url(p, purls[k]));
                let i = choose|i: int| 0 <= i < p.len() && p[i].1 == Some(purls[k]);
                assert(d[i] == p[i]);
                assert(urls[k] == purls[k]);
            } else {
                assert(d.last().1 is Some);
                assert(urls[k] == d.last().1->Some_0);
                assert(d[d.len() - 1].1 == Some(urls[k]));
            }
        }
        assert forall|i: int| 0 <= i < d.len() && #[trigger] d[i].1 is Some implies urls.contains(
            d[i].1->Some_0,
        ) by {
            if i < d.len() - 1 {
                assert(p[i] == d[i]);
                assert(purls.contains(d[i].1->Some_0));
                let k = choose|k: int| 0 <= k < purls.len() && purls[k] == d[i].1->Some_0;
                assert(urls[k] == d[i].1->Some_0);
            } else {
                let k = urls.len() - 1;
                assert(urls[k] == d[i].1->Some_0);
            }
        }
    }
}

/// The count pass and the download pass agree: the number of entries
/// counted as having an image URL equals the number of URLs the
/// downloader is handed, both taken in the same entry order from the
/// same document.
pub proof fn lemma_count_matches_attempts(d: Seq<(Seq<char>, Option<Seq<char>>)>)
    ensures
        spec_image_urls(d).len() == spec_count_images(d),
    decreases d.len(),
{
    if d.len() > 0 {
        lemma_count_matches_attempts(d.drop_last());
    }
}

} // verus!
