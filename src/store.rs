//! The shared store of layer records, looked up by layer tag.
use vstd::prelude::*;

use crate::layer::{Color, LayerTag, RenderLayerBundle};
use crate::layout::MousePosition;

verus! {

/// Why a layer could not be built or run.
#[derive(Clone, Copy, Debug, PartialEq, Eq, Structural)]
pub enum LayerError {
    /// The configured resolution has no area.
    ZeroResolution,
    /// The store does not hold exactly one record for `layer`; it holds `count`.
    CountMismatch { layer: LayerTag, count: usize },
}

/// How many records of `s` belong to `tag`.
pub open spec fn count_tag(s: Seq<RenderLayerBundle>, tag: LayerTag) -> nat
    decreases s.len(),
{
    if s.len() == 0 {
        0
    } else {
        count_tag(s.drop_last(), tag) + if s.last().layer_identifier == tag { 1nat } else { 0nat }
    }
}

/// The index of the last record of `s` that belongs to `tag`, or -1.
pub open spec fn find_tag(s: Seq<RenderLayerBundle>, tag: LayerTag) -> int
    decreases s.len(),
{
    if s.len() == 0 {
        -1
    } else if s.last().layer_identifier == tag {
        s.len() - 1
    } else {
        find_tag(s.drop_last(), tag)
    }
}

/// The record of `tag` in `s`, where there is one.
pub open spec fn record(s: Seq<RenderLayerBundle>, tag: LayerTag) -> RenderLayerBundle {
    s[find_tag(s, tag)]
}

/// The records of `s` that are not `tag`'s, and which record is `tag`'s.
pub(crate) proof fn lemma_find_tag(s: Seq<RenderLayerBundle>, tag: LayerTag)
    ensures
        -1 <= find_tag(s, tag) < s.len(),
        count_tag(s, tag) <= s.len(),
        (find_tag(s, tag) == -1) == (count_tag(s, tag) == 0),
        find_tag(s, tag) >= 0 ==> s[find_tag(s, tag)].layer_identifier == tag,
    decreases s.len(),
{
    if s.len() > 0 {
        lemma_find_tag(s.drop_last(), tag);
    }
}

/// Replacing the record of `tag` by another of the same tag keeps every count.
pub(crate) proof fn lemma_count_update(s: Seq<RenderLayerBundle>, i: int, b: RenderLayerBundle, tag: LayerTag)
    requires
        0 <= i < s.len(),
        b.layer_identifier == s[i].layer_identifier,
    ensures
        count_tag(s.update(i, b), tag) == count_tag(s, tag),
        find_tag(s.update(i, b), tag) == find_tag(s, tag),
    decreases s.len(),
{
    let u = s.update(i, b);
    if i == s.len() - 1 {
        assert(u.drop_last() =~= s.drop_last());
    } else {
        assert(u.drop_last() =~= s.drop_last().update(i, b));
        lemma_count_update(s.drop_last(), i, b, tag);
    }
}

/// The records of all layers.
pub struct LayerWorld {
    layers: Vec<RenderLayerBundle>,
}

impl View for LayerWorld {
    type V = Seq<RenderLayerBundle>;

    closed spec fn view(&self) -> Seq<RenderLayerBundle> {
        self.layers@
    }
}

impl LayerWorld {
    /// Every record draws into a surface with area.
    pub open spec fn wf(&self) -> bool {
        forall|i: int| 0 <= i < self@.len() ==> #[trigger] self@[i].wf()
    }

    /// An empty store.
    pub fn new() -> (r: LayerWorld)
        ensures
            r@ == Seq::<RenderLayerBundle>::empty(),
            r.wf(),
    {
        LayerWorld { layers: Vec::new() }
    }

    /// The number of records, of all layers.
    pub fn len(&self) -> (r: usize)
        ensures
            r == self@.len(),
    {
        self.layers.len()
    }

    /// Adds a record.
    pub(crate) fn spawn(&mut self, bundle: RenderLayerBundle)
        requires
            old(self).wf(),
            bundle.wf(),
        ensures
            final(self)@ == old(self)@.push(bundle),
            final(self).wf(),
    {
        self.layers.push(bundle);
        assert forall|i: int| 0 <= i < final(self)@.len() implies #[trigger] final(self)@[i].wf() by {
            if i < old(self)@.len() {
                assert(final(self)@[i] == old(self)@[i]);
            }
        }
    }

    /// How many records belong to `tag`.
    pub fn count(&self, tag: LayerTag) -> (r: usize)
        ensures
            r == count_tag(self@, tag),
    {
        self.scan(tag).0
    }

    /// The number of `tag`'s records, and the index of its last one.
    fn scan(&self, tag: LayerTag) -> (r: (usize, Option<usize>))
        ensures
            r.0 == count_tag(self@, tag),
            find_tag(self@, tag) == -1 ==> r.1 is None,
            find_tag(self@, tag) >= 0 ==> r.1 is Some && r.1->Some_0 == find_tag(self@, tag),
    {
        let mut n: usize = 0;
        let mut found: Option<usize> = None;
        let mut i: usize = 0;
        while i < self.layers.len()
            invariant
                i <= self.layers@.len(),
                n == count_tag(self@.subrange(0, i as int), tag),
                find_tag(self@.subrange(0, i as int), tag) == -1 ==> found is None,
                find_tag(self@.subrange(0, i as int), tag) >= 0 ==> found is Some && found->Some_0
                    == find_tag(self@.subrange(0, i as int), tag),
            decreases self.layers@.len() - i,
        {
            let ghost prefix = self@.subrange(0, i as int);
            let ghost next = self@.subrange(0, i + 1);
            assert(next.drop_last() =~= prefix);
            proof {
                lemma_find_tag(prefix, tag);
            }
            if self.layers[i].layer_identifier == tag {
                n = n + 1;
                found = Some(i);
            }
            i = i + 1;
        }
        assert(self@.subrange(0, self@.len() as int) =~= self@);
        (n, found)
    }

    /// The index of `tag`'s record, where there is exactly one.
    pub fn find_single(&self, tag: LayerTag) -> (r: Result<usize, LayerError>)
        ensures
            count_tag(self@, tag) == 1 ==> r is Ok && r->Ok_0 == find_tag(self@, tag),
            count_tag(self@, tag) != 1 ==> r == Err::<usize, LayerError>(
                LayerError::CountMismatch { layer: tag, count: count_tag(self@, tag) as usize },
            ),
            r is Ok ==> 0 <= find_tag(self@, tag) < self@.len(),
    {
        proof {
            lemma_find_tag(self@, tag);
        }
        let (n, found) = self.scan(tag);
        if n != 1 {
            return Err(LayerError::CountMismatch { layer: tag, count: n });
        }
        match found {
            Some(i) => Ok(i),
            None => Err(LayerError::CountMismatch { layer: tag, count: n }),
        }
    }

    /// The record at `i`.
    pub fn get(&self, i: usize) -> (r: &RenderLayerBundle)
        requires
            i < self@.len(),
        ensures
            *r == self@[i as int],
    {
        &self.layers[i]
    }

    /// Puts `bundle` at `i` in place of the record of the same layer there.
    pub(crate) fn set(&mut self, i: usize, bundle: RenderLayerBundle)
        requires
            old(self).wf(),
            i < old(self)@.len(),
            bundle.wf(),
        ensures
            final(self)@ == old(self)@.update(i as int, bundle),
            final(self).wf(),
    {
        self.layers.set(i, bundle);
        assert forall|j: int| 0 <= j < final(self)@.len() implies #[trigger] final(self)@[j].wf() by {
            if j != i {
                assert(final(self)@[j] == old(self)@[j]);
            }
        }
    }

    /// The cursor position last computed for `tag`'s layer.
    pub fn mouse_position(&self, tag: LayerTag) -> (r: Result<MousePosition, LayerError>)
        ensures
            count_tag(self@, tag) == 1 ==> r == Ok::<MousePosition, LayerError>(record(self@, tag).mouse_position),
            count_tag(self@, tag) != 1 ==> r == Err::<MousePosition, LayerError>(
                LayerError::CountMismatch { layer: tag, count: count_tag(self@, tag) as usize },
            ),
    {
        match self.find_single(tag) {
            Ok(i) => {
                Ok(self.layers[i].mouse_position)
            },
            Err(e) => Err(e),
        }
    }

    /// Sets the colour that `tag`'s surface is cleared to.
    pub fn set_clear_color(&mut self, tag: LayerTag, color: Color) -> (r: Result<(), LayerError>)
        requires
            old(self).wf(),
        ensures
            final(self).wf(),
            count_tag(old(self)@, tag) == 1 ==> r is Ok && final(self)@ == old(self)@.update(
                find_tag(old(self)@, tag),
                RenderLayerBundle { clear_color: color, ..record(old(self)@, tag) },
            ),
            count_tag(old(self)@, tag) != 1 ==> r == Err::<(), LayerError>(
                LayerError::CountMismatch { layer: tag, count: count_tag(old(self)@, tag) as usize },
            ) && final(self)@ == old(self)@,
    {
        match self.find_single(tag) {
            Ok(i) => {
                assert(self@[i as int].wf());
                let b = RenderLayerBundle { clear_color: color, ..self.layers[i] };
                self.set(i, b);
                Ok(())
            },
            Err(e) => Err(e),
        }
    }
}

} // verus!
