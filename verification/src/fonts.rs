//! The fonts of the host: found once, loaded when first asked for, and
//! kept from then on.

use std::path::PathBuf;
use typst::text::{Font, FontBook, FontInfo};
use vstd::prelude::*;
use crate::error::ContractViolation;

verus! {

/// `typst::text::Font`: the handle of a decoded font. The library keeps
/// such handles and hands them on; it makes none and never looks inside
/// one.
#[verifier::external_type_specification]
#[verifier::external_body]
pub struct ExFont(Font);

/// `typst::text::FontInfo`: the metadata of one font, by which the
/// compiler chooses among fonts.
#[verifier::external_type_specification]
#[verifier::external_body]
pub struct ExFontInfo(FontInfo);

/// `typst::text::FontBook`: the list of the metadata of all fonts. What it
/// holds is [`book_infos`].
#[verifier::external_type_specification]
#[verifier::external_body]
pub struct ExFontBook(FontBook);

/// `std::path::PathBuf`: the path of a font file. The library hands it to
/// the function that loads the font, and does nothing else with it.
#[verifier::external_type_specification]
#[verifier::external_body]
pub struct ExPathBuf(PathBuf);

/// The entries of a font book, in the order of their positions.
pub uninterp spec fn book_infos(book: FontBook) -> Seq<FontInfo>;

/// `Font::clone` gives a second handle to the same font.
#[verifier::external_body]
fn clone_font(font: &Font) -> (copy: Font)
    ensures
        copy == *font,
{
    font.clone()
}

/// `FontBook::new` gives a book without entries.
#[verifier::external_body]
fn empty_book() -> (book: FontBook)
    ensures
        book_infos(book) == Seq::<FontInfo>::empty(),
{
    FontBook::new()
}

/// `FontBook::push` puts the entry behind those that the book holds, at
/// the position that is the number of entries before the call.
#[verifier::external_body]
fn book_push(book: &mut FontBook, info: FontInfo)
    ensures
        book_infos(*final(book)) == book_infos(*old(book)).push(info),
{
    book.push(info)
}

/// `FontBook::clone` gives a book with the same entries at the same
/// positions.
#[verifier::external_body]
fn clone_book(book: &FontBook) -> (copy: FontBook)
    ensures
        book_infos(copy) == book_infos(*book),
{
    book.clone()
}

/// One font of the host: where it lies, and its handle once it was asked
/// for.
pub struct FontSlot {
    path: PathBuf,
    index: u32,
    font: Option<Option<Font>>,
}

impl FontSlot {
    /// The file that holds the font.
    pub closed spec fn path(self) -> PathBuf {
        self.path
    }

    /// The index of the font's face in its file.
    pub closed spec fn index(self) -> u32 {
        self.index
    }

    /// What the slot has kept: `None` before the first lookup, afterwards
    /// the handle, or `None` inside where the font could not be decoded.
    pub closed spec fn cached(self) -> Option<Option<Font>> {
        self.font
    }

    /// What a lookup returns, where loading the font would give `loaded`:
    /// what the slot has kept, and `loaded` where it has kept nothing.
    pub open spec fn lookup(self, loaded: Option<Font>) -> Option<Font> {
        match self.cached() {
            Some(kept) => kept,
            None => loaded,
        }
    }

    /// The slot after a lookup, where loading the font would give `loaded`.
    pub closed spec fn after_lookup(self, loaded: Option<Font>) -> FontSlot {
        FontSlot { path: self.path, index: self.index, font: Some(self.lookup(loaded)) }
    }

    /// A lookup leaves the slot where it is and keeps what it returned; a
    /// slot that has kept something is left as it is.
    pub proof fn lemma_after_lookup(self, loaded: Option<Font>)
        ensures
            self.after_lookup(loaded).path() == self.path(),
            self.after_lookup(loaded).index() == self.index(),
            self.after_lookup(loaded).cached() == Some(self.lookup(loaded)),
            self.cached() is Some ==> self.after_lookup(loaded) == self,
    {
    }

    /// Of two lookups in a row the second returns what the first returned
    /// and changes nothing, whatever loading the font would give by then:
    /// the slot has kept the first result, and a slot that has kept
    /// something asks for no load.
    pub proof fn lemma_lookup_is_memoized(self, first: Option<Font>, second: Option<Font>)
        ensures
            self.after_lookup(first).cached() is Some,
            self.after_lookup(first).lookup(second) == self.lookup(first),
            self.after_lookup(first).after_lookup(second) == self.after_lookup(first),
    {
    }

    /// A slot for the face at `index` of the file at `path`, not asked for
    /// yet.
    pub fn new(path: PathBuf, index: u32) -> (slot: FontSlot)
        ensures
            slot.path() == path,
            slot.index() == index,
            slot.cached() is None,
    {
        FontSlot { path, index, font: None }
    }

    /// Whether the slot has been asked for its font before.
    pub fn is_loaded(&self) -> (loaded: bool)
        ensures
            loaded == self.cached() is Some,
    {
        self.font.is_some()
    }

    /// Looks the font up. The first lookup calls `load` with the slot's
    /// path and index, and keeps what it gives: the handle, or nothing for
    /// a font whose file cannot be read or decoded. Every later lookup
    /// returns what was kept and does not call `load`: nothing is asked of
    /// `load` then.
    ///
    /// Reading the file and decoding its bytes are `load`'s work, and so is
    /// what happens where the decoder gives up on a file.
    pub fn get<L>(&mut self, load: L) -> (font: Option<Font>) where
        L: FnOnce(&PathBuf, u32) -> Option<Font>,

        requires
            old(self).cached() is None ==> load.requires((&old(self).path(), old(self).index())),
        ensures
            exists|loaded: Option<Font>|
                {
                    &&& old(self).cached() is None ==> load.ensures(
                        (&old(self).path(), old(self).index()),
                        loaded,
                    )
                    &&& font == old(self).lookup(loaded)
                    &&& *final(self) == #[trigger] old(self).after_lookup(loaded)
                },
    {
        let ghost mut witness: Option<Font> = None;
        if self.font.is_none() {
            let loaded = load(&self.path, self.index);
            proof {
                witness = loaded;
            }
            self.font = Some(loaded);
        }
        let font = match &self.font {
            Some(Some(font)) => Some(clone_font(font)),
            _ => None,
        };
        assert(font == old(self).lookup(witness));
        assert(*self == old(self).after_lookup(witness));
        font
    }
}

/// A font face as the host lists it: the file it lies in, if it lies in
/// one, and its index there.
pub struct Face {
    pub path: Option<PathBuf>,
    pub index: u32,
}

/// Whether face `i` enters the catalog: it lies in a file, and its
/// metadata could be read.
pub open spec fn is_kept(faces: Seq<Face>, infos: Seq<Option<FontInfo>>, i: int) -> bool {
    faces[i].path is Some && infos[i] is Some
}

/// The metadata of the faces among the first `n` that enter the catalog,
/// in the order of the faces.
pub open spec fn kept_infos(faces: Seq<Face>, infos: Seq<Option<FontInfo>>, n: nat) -> Seq<
    FontInfo,
>
    decreases n,
{
    if n == 0 {
        Seq::empty()
    } else {
        let before = kept_infos(faces, infos, (n - 1) as nat);
        if is_kept(faces, infos, n - 1) {
            before.push(infos[n - 1]->0)
        } else {
            before
        }
    }
}

/// The slots of the faces among the first `n` that enter the catalog, in
/// the order of the faces, none of them asked for yet.
pub open spec fn kept_slots(faces: Seq<Face>, infos: Seq<Option<FontInfo>>, n: nat) -> Seq<
    FontSlot,
>
    decreases n,
{
    if n == 0 {
        Seq::empty()
    } else {
        let before = kept_slots(faces, infos, (n - 1) as nat);
        if is_kept(faces, infos, n - 1) {
            before.push(fresh_slot(faces[n - 1].path->0, faces[n - 1].index))
        } else {
            before
        }
    }
}

/// The slot that [`FontSlot::new`] makes.
pub closed spec fn fresh_slot(path: PathBuf, index: u32) -> FontSlot {
    FontSlot { path, index, font: None }
}

/// A fresh slot lies where it was made for and has kept nothing.
pub proof fn lemma_fresh_slot(path: PathBuf, index: u32)
    ensures
        fresh_slot(path, index).path() == path,
        fresh_slot(path, index).index() == index,
        fresh_slot(path, index).cached() is None,
{
}

/// Both lists take up a face together or not at all.
pub proof fn lemma_kept_lengths(faces: Seq<Face>, infos: Seq<Option<FontInfo>>, n: nat)
    ensures
        kept_infos(faces, infos, n).len() == kept_slots(faces, infos, n).len(),
        kept_infos(faces, infos, n).len() <= n,
    decreases n,
{
    if n > 0 {
        lemma_kept_lengths(faces, infos, (n - 1) as nat);
    }
}

/// The fonts that the compiler may use: a book of their metadata, and for
/// each position of the book the slot that loads the font. The book and the
/// number of slots never change once the catalog is made; only the slots
/// fill.
///
/// A catalog holds its slots in cells of type `S`. With `S = FontSlot` the
/// catalog has one owner, who looks fonts up with
/// [`font`](FontCatalog::font). A catalog that several threads use holds
/// each slot in a cell with a lock of its own (see
/// [`map_slots`](FontCatalog::map_slots)): a thread asks for the cell with
/// [`slot`](FontCatalog::slot), locks it, and calls [`FontSlot::get`]. So
/// two lookups of one position wait for each other, and the font is
/// loaded once; lookups of different positions do not meet.
pub struct FontCatalog<S> {
    book: FontBook,
    slots: Vec<S>,
}

impl<S> FontCatalog<S> {
    /// Every position of the book has its slot, and there is no slot
    /// without a position.
    #[verifier::type_invariant]
    spec fn positions_agree(self) -> bool {
        book_infos(self.book).len() == self.slots@.len()
    }

    /// The metadata in the book, by position.
    pub closed spec fn infos(self) -> Seq<FontInfo> {
        book_infos(self.book)
    }

    /// The cells of the slots, by position.
    pub closed spec fn slots(self) -> Seq<S> {
        self.slots@
    }

    /// The cell of the slot at `index` of the book. An index that the book
    /// does not have is a violation.
    pub fn slot(&self, index: usize) -> (out: Result<&S, ContractViolation>)
        ensures
            match out {
                Ok(cell) => index < self.slots().len() && *cell == self.slots()[index as int],
                Err(violation) => index >= self.slots().len() && violation
                    == ContractViolation::FontIndex,
            },
    {
        if index < self.slots.len() {
            Ok(&self.slots[index])
        } else {
            Err(ContractViolation::FontIndex)
        }
    }

    /// Puts each slot into a cell that `wrap` makes of it. The book and the
    /// positions stay as they are.
    pub fn map_slots<T, W>(self, wrap: W) -> (out: FontCatalog<T>) where W: Fn(S) -> T
        requires
            forall|i: int| 0 <= i < self.slots().len() ==> wrap.requires((self.slots()[i],)),
        ensures
            out.infos() == self.infos(),
            out.slots().len() == self.slots().len(),
            forall|i: int|
                0 <= i < self.slots().len() ==> wrap.ensures(
                    (self.slots()[i],),
                    #[trigger] out.slots()[i],
                ),
    {
        proof {
            use_type_invariant(&self);
        }
        let ghost before = self.slots@;
        assert forall|i: int| 0 <= i < before.len() implies wrap.requires((before[i],)) by {
            assert(before[i] == self.slots()[i]);
        }
        let FontCatalog { book, slots } = self;
        let mut cells: Vec<T> = Vec::new();
        for slot in it: slots
            invariant
                it.seq() == before,
                cells.len() == it.index(),
                forall|i: int| 0 <= i < before.len() ==> wrap.requires((before[i],)),
                forall|i: int|
                    0 <= i < it.index() ==> wrap.ensures((before[i],), #[trigger] cells@[i]),
        {
            cells.push(wrap(slot));
        }
        FontCatalog { book, slots: cells }
    }

    /// The number of fonts.
    pub fn len(&self) -> (n: usize)
        ensures
            n == self.slots().len(),
            n == self.infos().len(),
    {
        proof {
            use_type_invariant(self);
        }
        self.slots.len()
    }

    /// The book, for the compiler to choose fonts from.
    pub fn book(&self) -> (book: &FontBook)
        ensures
            book_infos(*book) == self.infos(),
    {
        &self.book
    }
}

impl<S: Clone> FontCatalog<S> {
    /// A second catalog with the same book and, at each position, a clone
    /// of the cell. Where a clone of a cell leads to the same slot, as it
    /// does for a shared pointer, both catalogs fill the same slots.
    pub fn share(&self) -> (out: FontCatalog<S>)
        ensures
            out.infos() == self.infos(),
            out.slots().len() == self.slots().len(),
            forall|i: int|
                0 <= i < self.slots().len() ==> cloned(self.slots()[i], #[trigger] out.slots()[i]),
    {
        proof {
            use_type_invariant(self);
        }
        let mut cells: Vec<S> = Vec::new();
        let mut i: usize = 0;
        while i < self.slots.len()
            invariant
                i <= self.slots.len(),
                cells.len() == i,
                forall|k: int| 0 <= k < i ==> cloned(self.slots@[k], #[trigger] cells@[k]),
            decreases self.slots.len() - i,
        {
            cells.push(self.slots[i].clone());
            i += 1;
        }
        FontCatalog { book: clone_book(&self.book), slots: cells }
    }
}

impl FontCatalog<FontSlot> {
    /// Whether a lookup at `index` will ask for the font to be loaded: the
    /// book has the index, and the slot there has kept nothing yet.
    pub open spec fn asks_to_load(self, index: usize) -> bool {
        index < self.slots().len() && self.slots()[index as int].cached() is None
    }

    /// What a lookup at `index` does: where the book has no such index it
    /// reports a violation and changes nothing; else it does on the slot
    /// there what [`FontSlot::get`] does, and leaves every other slot as it
    /// is. The book stays as it is in both cases.
    pub open spec fn is_lookup<L: FnOnce(&PathBuf, u32) -> Option<Font>>(
        self,
        after: FontCatalog<FontSlot>,
        index: usize,
        load: L,
        out: Result<Option<Font>, ContractViolation>,
    ) -> bool {
        &&& after.infos() == self.infos()
        &&& if index < self.slots().len() {
            let slot = self.slots()[index as int];
            exists|loaded: Option<Font>|
                {
                    &&& slot.cached() is None ==> load.ensures(
                        (&slot.path(), slot.index()),
                        loaded,
                    )
                    &&& out == Ok::<Option<Font>, ContractViolation>(slot.lookup(loaded))
                    &&& after.slots() == self.slots().update(
                        index as int,
                        #[trigger] slot.after_lookup(loaded),
                    )
                }
        } else {
            &&& out == Err::<Option<Font>, ContractViolation>(ContractViolation::FontIndex)
            &&& after.slots() == self.slots()
        }
    }

    /// Of two lookups in a row at one index, the second returns what the
    /// first returned and leaves the catalog as the first left it; and
    /// after the first, a lookup at this index asks for no load.
    pub proof fn lemma_second_lookup_is_cached<L1, L2>(
        self,
        between: FontCatalog<FontSlot>,
        after: FontCatalog<FontSlot>,
        index: usize,
        first: L1,
        second: L2,
        first_out: Result<Option<Font>, ContractViolation>,
        second_out: Result<Option<Font>, ContractViolation>,
    ) where L1: FnOnce(&PathBuf, u32) -> Option<Font>, L2: FnOnce(&PathBuf, u32) -> Option<Font>
        requires
            self.is_lookup(between, index, first, first_out),
            between.is_lookup(after, index, second, second_out),
        ensures
            second_out == first_out,
            after.slots() == between.slots(),
            after.infos() == between.infos(),
            !between.asks_to_load(index),
    {
        if index < self.slots().len() {
            let slot = self.slots()[index as int];
            let l1 = choose|loaded: Option<Font>|
                {
                    &&& slot.cached() is None ==> first.ensures(
                        (&slot.path(), slot.index()),
                        loaded,
                    )
                    &&& first_out == Ok::<Option<Font>, ContractViolation>(slot.lookup(loaded))
                    &&& between.slots() == self.slots().update(
                        index as int,
                        #[trigger] slot.after_lookup(loaded),
                    )
                };
            let kept = between.slots()[index as int];
            assert(kept == slot.after_lookup(l1));
            slot.lemma_after_lookup(l1);
            let l2 = choose|loaded: Option<Font>|
                {
                    &&& kept.cached() is None ==> second.ensures(
                        (&kept.path(), kept.index()),
                        loaded,
                    )
                    &&& second_out == Ok::<Option<Font>, ContractViolation>(kept.lookup(loaded))
                    &&& after.slots() == between.slots().update(
                        index as int,
                        #[trigger] kept.after_lookup(loaded),
                    )
                };
            kept.lemma_after_lookup(l2);
            assert(after.slots() =~= between.slots());
        }
    }

    /// Looks up the font at `index` of the book: see
    /// [`is_lookup`](FontCatalog::is_lookup). `load` is called only where
    /// [`asks_to_load`](FontCatalog::asks_to_load) holds.
    pub fn font<L>(&mut self, index: usize, load: L) -> (out: Result<
        Option<Font>,
        ContractViolation,
    >) where L: FnOnce(&PathBuf, u32) -> Option<Font>
        requires
            old(self).asks_to_load(index) ==> load.requires(
                (&old(self).slots()[index as int].path(), old(self).slots()[index as int].index()),
            ),
        ensures
            old(self).is_lookup(*final(self), index, load, out),
    {
        proof {
            use_type_invariant(&*self);
        }
        if index < self.slots.len() {
            let font = self.slots[index].get(load);
            Ok(font)
        } else {
            Err(ContractViolation::FontIndex)
        }
    }
}

/// Builds the catalog of the host's fonts. A face that lies in no file is
/// passed over, and so is one for which `probe`, called with the face's
/// position in `faces`, finds no metadata. Every other face gets the next
/// position of the book, with the metadata that `probe` gave, and a slot
/// for its file and index that has not been asked for yet. `probe` is not
/// called for a face without a file.
pub fn load_system_fonts<P>(faces: Vec<Face>, probe: P) -> (catalog: FontCatalog<FontSlot>) where
    P: Fn(usize) -> Option<FontInfo>,

    requires
        forall|i: usize| i < faces.len() && faces[i as int].path is Some ==> probe.requires((i,)),
    ensures
        exists|infos: Seq<Option<FontInfo>>|
            {
                &&& infos.len() == faces.len()
                &&& forall|i: usize|
                    i < faces.len() && faces[i as int].path is Some ==> probe.ensures(
                        (i,),
                        #[trigger] infos[i as int],
                    )
                &&& catalog.infos() == kept_infos(faces@, infos, faces.len() as nat)
                &&& catalog.slots() == kept_slots(faces@, infos, faces.len() as nat)
            },
{
    let mut book = empty_book();
    let mut slots: Vec<FontSlot> = Vec::new();
    let ghost all = faces@;
    assert(all.len() == faces.len());
    let ghost mut infos: Seq<Option<FontInfo>> = Seq::empty();
    let mut i: usize = 0;
    for face in it: faces
        invariant
            it.seq() == all,
            all.len() <= usize::MAX,
            i == it.index(),
            infos.len() == i,
            forall|k: usize| k < all.len() && all[k as int].path is Some ==> probe.requires((k,)),
            forall|k: usize|
                k < i && all[k as int].path is Some ==> probe.ensures(
                    (k,),
                    #[trigger] infos[k as int],
                ),
            book_infos(book) == kept_infos(all, infos, i as nat),
            slots@ == kept_slots(all, infos, i as nat),
    {
        let ghost before = infos;
        let index = face.index;
        match face.path {
            Some(path) => {
                let info = probe(i);
                proof {
                    infos = infos.push(info);
                }
                if let Some(info) = info {
                    book_push(&mut book, info);
                    slots.push(FontSlot::new(path, index));
                }
            },
            None => {
                proof {
                    infos = infos.push(None);
                }
            },
        }
        proof {
            lemma_kept_agree(all, before, infos, i as nat);
        }
        i += 1;
    }
    proof {
        lemma_kept_lengths(all, infos, all.len());
    }
    FontCatalog { book, slots }
}

/// What the first `n` faces contribute depends on the first `n` answers
/// alone.
proof fn lemma_kept_agree(
    faces: Seq<Face>,
    short: Seq<Option<FontInfo>>,
    long: Seq<Option<FontInfo>>,
    n: nat,
)
    requires
        n <= short.len() <= long.len(),
        forall|k: int| 0 <= k < n ==> short[k] == long[k],
    ensures
        kept_infos(faces, short, n) == kept_infos(faces, long, n),
        kept_slots(faces, short, n) == kept_slots(faces, long, n),
    decreases n,
{
    if n > 0 {
        lemma_kept_agree(faces, short, long, (n - 1) as nat);
    }
}

} // verus!
