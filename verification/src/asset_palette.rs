//! The asset palette: registered object types, organized by category, with a
//! search filter and the asset selected for placement.
use crate::bits::{ColorBits, Vec2Bits, white};
use crate::map_object::{DEFAULT_FPS_BITS, MapObject, ObjectVisual};
use crate::str_map::StrMap;
use vstd::prelude::*;

verus! {

/// The lowercase form of a string, character by character as Unicode
/// defines it (what `str::to_lowercase` returns).
pub uninterp spec fn lowercase(s: Seq<char>) -> Seq<char>;

/// `str::to_lowercase` from std. Its result is named [`lowercase`] of the
/// argument: it depends on the argument alone. What the Unicode mapping does
/// to each character is not stated.
#[verifier::external_body]
pub(crate) fn to_lowercase(s: &str) -> (r: String)
    ensures
        r@ == lowercase(s@),
{
    s.to_lowercase()
}

/// Whether `needle` occurs in `hay` as a contiguous run (the empty run
/// occurs everywhere).
pub open spec fn occurs_in(hay: Seq<char>, needle: Seq<char>) -> bool {
    exists|i: int| 0 <= i && i + needle.len() <= hay.len() && #[trigger] hay.subrange(i, i + needle.len()) == needle
}

fn starts_at(hay: &str, needle: &str, i: usize) -> (b: bool)
    requires
        i + needle@.len() <= hay@.len(),
    ensures
        b == (hay@.subrange(i as int, i + needle@.len()) == needle@),
{
    let n = needle.unicode_len();
    let m = hay.unicode_len();
    let mut k: usize = 0;
    while k < n
        invariant
            n == needle@.len(),
            m == hay@.len(),
            i + n <= m,
            k <= n,
            forall|j: int| 0 <= j < k ==> hay@[i + j] == needle@[j],
        decreases n - k,
    {
        if hay.get_char(i + k) != needle.get_char(k) {
            assert(hay@.subrange(i as int, i + n)[k as int] != needle@[k as int]);
            return false;
        }
        k = k + 1;
    }
    assert(hay@.subrange(i as int, i + n) =~= needle@);
    true
}

/// Whether `needle` occurs in `hay` as a contiguous run of characters.
pub fn text_contains(hay: &str, needle: &str) -> (b: bool)
    ensures
        b == occurs_in(hay@, needle@),
{
    let n = needle.unicode_len();
    let m = hay.unicode_len();
    if n == 0 {
        assert(hay@.subrange(0int, 0int + needle@.len()) =~= needle@);
        return true;
    }
    if n > m {
        return false;
    }
    let mut i: usize = 0;
    while i <= m - n
        invariant
            n == needle@.len(),
            m == hay@.len(),
            1 <= n <= m,
            i <= m - n + 1,
            forall|j: int| 0 <= j < i ==> #[trigger] hay@.subrange(j, j + n) != needle@,
        decreases m - i,
    {
        if starts_at(hay, needle, i) {
            return true;
        }
        i = i + 1;
    }
    false
}

/// A key taken out of a list of distinct keys is no longer among them.
proof fn lemma_removed_key_gone(keys: Seq<Seq<char>>, i: int)
    requires
        keys.no_duplicates(),
        0 <= i < keys.len(),
    ensures
        !keys.remove(i).contains(keys[i]),
{
    if keys.remove(i).contains(keys[i]) {
        let j = keys.remove(i).index_of(keys[i]);
        let oj = if j < i { j } else { j + 1 };
        assert(keys[oj] == keys[i]);
    }
}

/// Kinds of asset visuals an asset can be converted to.
#[derive(Debug, Clone, Copy, PartialEq, Eq, Structural)]
pub enum AssetKind {
    /// A single texture.
    Texture,
    /// A sprite sheet.
    SpriteSheet,
    /// A tileset.
    Tileset,
    /// A nine-slice texture.
    NineSlice,
    /// A circle.
    Circle,
    /// A rectangle.
    Rect,
}

/// The identifier of a GUI texture: one the GUI manages, or one the user
/// registered with the renderer.
#[derive(Debug, Clone, Copy, PartialEq, Eq, Hash, Structural)]
pub enum TextureId {
    /// A texture managed by the GUI.
    Managed(u64),
    /// A texture registered by the user.
    User(u64),
}

/// Entry in the asset palette.
#[derive(Clone, Debug)]
pub struct AssetEntry {
    /// The map object definition.
    pub object: MapObject,
    /// The texture of the entry's thumbnail, if it has one.
    pub preview_texture_id: Option<TextureId>,
}

impl AssetEntry {
    /// A new asset entry, without a thumbnail.
    pub fn new(object: MapObject) -> (e: AssetEntry)
        ensures
            e == (AssetEntry { object, preview_texture_id: None }),
    {
        AssetEntry { object, preview_texture_id: None }
    }

    /// The entry with the thumbnail texture `texture_id`.
    pub fn with_preview(self, texture_id: TextureId) -> (e: AssetEntry)
        ensures
            e == (AssetEntry { preview_texture_id: Some(texture_id), ..self }),
    {
        AssetEntry { preview_texture_id: Some(texture_id), ..self }
    }
}

/// The asset palette of the editor.
pub struct AssetPalette {
    assets: StrMap<AssetEntry>,
    categories: StrMap<Vec<String>>,
    selected_asset: Option<String>,
    search_filter: String,
    expanded_categories: StrMap<bool>,
}

/// The views of a list of strings.
pub open spec fn string_views(v: Seq<String>) -> Seq<Seq<char>> {
    v.map_values(|s: String| s@)
}

/// The visual an asset of kind `kind` gets when it is converted, where `name`
/// is its name (and texture name); `None` for a circle, whose radius comes
/// from its size.
pub open spec fn converted_visual(kind: AssetKind, name: Seq<char>, v: ObjectVisual) -> bool {
    match kind {
        AssetKind::Texture => v matches ObjectVisual::Texture { texture_name: t, tint } && t@ == name
            && tint == white(),
        AssetKind::SpriteSheet => v matches ObjectVisual::SpriteSheet {
            texture_name: t,
            frame_count: 1,
            current_frame: 0,
            fps_bits: DEFAULT_FPS_BITS,
            tint,
        } && t@ == name && tint == white(),
        AssetKind::Tileset => v matches ObjectVisual::Tileset {
            texture_name: t,
            columns: 1,
            rows: 1,
            selected_tile: 0,
            ignored_tiles: ig,
            tint,
        } && t@ == name && ig@.len() == 0 && tint == white(),
        AssetKind::NineSlice => v matches ObjectVisual::NineSlice {
            texture_name: t,
            left: 8,
            right: 8,
            top: 8,
            bottom: 8,
            tint,
        } && t@ == name && tint == white(),
        AssetKind::Rect => v == (ObjectVisual::Rect { color: white() }),
        AssetKind::Circle => false,
    }
}

/// What storing `entry` in palette `p` gives: palette `q`. The entry is
/// stored under its object's name (replacing any entry of that name), the
/// name is added last to its category, a new category starts expanded, and
/// the filter stays.
pub open spec fn stored(p: AssetPalette, q: AssetPalette, entry: AssetEntry) -> bool {
    let object = entry.object;
    &&& q.entries() == p.entries().insert(object.name@, entry)
    &&& q.category_map() == p.category_map().insert(
            object.category@,
            if p.category_map().contains_key(object.category@) {
                p.category_map()[object.category@].push(object.name@)
            } else {
                seq![object.name@]
            },
        )
    &&& q.category_order() == if p.category_order().contains(object.category@) {
            p.category_order()
        } else {
            p.category_order().push(object.category@)
        }
    &&& q.expanded() == if p.expanded().contains_key(object.category@) {
            p.expanded()
        } else {
            p.expanded().insert(object.category@, true)
        }
    &&& q.filter() == p.filter()
}

/// What registering `object` in palette `p` gives: palette `q`. The asset is
/// stored without a thumbnail (see [`stored`]), and the first asset registered
/// becomes the selected one.
pub open spec fn registered(p: AssetPalette, q: AssetPalette, object: MapObject) -> bool {
    &&& stored(p, q, AssetEntry { object, preview_texture_id: None })
    &&& q.selected_name() == if p.entries().dom() == Set::<Seq<char>>::empty() {
            Some(object.name@)
        } else {
            p.selected_name()
        }
}

/// What registering `object` with the thumbnail `preview_id` in palette `p`
/// gives: palette `q`. The asset is stored with the thumbnail (see
/// [`stored`]), and the selection stays, even for the first asset.
pub open spec fn registered_with_preview(p: AssetPalette, q: AssetPalette, object: MapObject, preview_id: TextureId) -> bool {
    &&& stored(p, q, AssetEntry { object, preview_texture_id: Some(preview_id) })
    &&& q.selected_name() == p.selected_name()
}

/// After registering an object, looking up its name gives it, its name is
/// listed last in its category, and its category is known to the expansion map.
pub proof fn lemma_register_then_lookup(p: AssetPalette, q: AssetPalette, object: MapObject)
    requires
        registered(p, q, object),
    ensures
        q.entries().contains_key(object.name@),
        q.entries()[object.name@].object == object,
        q.category_map().contains_key(object.category@),
        q.category_map()[object.category@].last() == object.name@,
        q.expanded().contains_key(object.category@),
{
}

impl AssetPalette {
    /// The palette's internal invariant: its maps have distinct keys and
    /// every asset is registered under its own name.
    pub closed spec fn wf(&self) -> bool {
        &&& self.assets.wf()
        &&& self.categories.wf()
        &&& self.expanded_categories.wf()
        &&& forall|i: int|
            0 <= i < self.assets.keys().len() ==> #[trigger] self.assets.vals()[i].object.name@
                == self.assets.keys()[i]
    }

    /// The registered assets, by name.
    pub closed spec fn entries(&self) -> Map<Seq<char>, AssetEntry> {
        self.assets.view()
    }

    /// The categories, in the order they were first used.
    pub closed spec fn category_order(&self) -> Seq<Seq<char>> {
        self.categories.keys()
    }

    /// The asset names of each category, in registration order.
    pub closed spec fn category_map(&self) -> Map<Seq<char>, Seq<Seq<char>>> {
        self.categories.view().map_values(|v: Vec<String>| string_views(v@))
    }

    /// Whether each known category is expanded.
    pub closed spec fn expanded(&self) -> Map<Seq<char>, bool> {
        self.expanded_categories.view()
    }

    /// The name of the asset selected for placement.
    pub closed spec fn selected_name(&self) -> Option<Seq<char>> {
        match self.selected_asset {
            Some(s) => Some(s@),
            None => None,
        }
    }

    /// The search filter (lowercase).
    pub closed spec fn filter(&self) -> Seq<char> {
        self.search_filter@
    }

    /// A new empty palette.
    pub fn new() -> (p: AssetPalette)
        ensures
            p.wf(),
            p.entries() == Map::<Seq<char>, AssetEntry>::empty(),
            p.category_order() == Seq::<Seq<char>>::empty(),
            p.category_map() == Map::<Seq<char>, Seq<Seq<char>>>::empty(),
            p.expanded() == Map::<Seq<char>, bool>::empty(),
            p.selected_name() is None,
            p.filter() == Seq::<char>::empty(),
    {
        let p = AssetPalette {
            assets: StrMap::new(),
            categories: StrMap::new(),
            selected_asset: None,
            search_filter: String::new(),
            expanded_categories: StrMap::new(),
        };
        assert(p.category_map() =~= Map::<Seq<char>, Seq<Seq<char>>>::empty());
        p
    }

    /// Whether no asset is registered.
    pub fn is_empty(&self) -> (b: bool)
        requires
            self.wf(),
        ensures
            b == (self.entries().dom() == Set::<Seq<char>>::empty()),
    {
        proof {
            self.assets.lemma_shape();
            if self.assets.keys().len() > 0 {
                assert(self.assets.keys().to_set().contains(self.assets.keys()[0]));
            } else {
                assert(self.assets.keys().to_set() =~= Set::<Seq<char>>::empty());
            }
        }
        self.assets.len() == 0
    }

    /// The number of registered assets.
    pub fn len(&self) -> (n: usize)
        requires
            self.wf(),
        ensures
            n == self.entries().dom().len(),
    {
        proof {
            self.assets.lemma_shape();
            self.assets.keys().unique_seq_to_set();
        }
        self.assets.len()
    }

    /// Stores an entry under its object's name (see [`stored`]).
    fn store(&mut self, entry: AssetEntry)
        requires
            old(self).wf(),
        ensures
            final(self).wf(),
            stored(*old(self), *final(self), entry),
            final(self).selected_name() == old(self).selected_name(),
    {
        proof {
            self.categories.lemma_shape();
            self.expanded_categories.lemma_shape();
            self.assets.lemma_shape();
        }
        let ghost obj = entry.object;
        let name = entry.object.name.clone();
        let category = entry.object.category.clone();
        let key = entry.object.name.clone();
        self.assets.insert(key, entry);
        proof {
            let ok = old(self).assets.keys();
            let nk = self.assets.keys();
            let nv = self.assets.vals();
            if ok.contains(obj.name@) {
                let j = ok.index_of(obj.name@);
                crate::str_map::lemma_index_of_distinct(ok, j);
            }
            assert forall|j: int| 0 <= j < nk.len() implies #[trigger] nv[j].object.name@ == nk[j] by {
                if j < ok.len() {
                    assert(nk[j] == ok[j]);
                }
            }
        }
        let ghost cm = old(self).category_map();
        match self.categories.find(category.as_str()) {
            Some(i) => {
                let mut list = self.categories.value_at(i).clone();
                assert(list@ =~= self.categories.vals()[i as int]@);
                let ghost before = list@;
                list.push(name.clone());
                proof {
                    crate::str_map::lemma_index_of_distinct(self.categories.keys(), i as int);
                    assert(string_views(list@) =~= string_views(before).push(obj.name@));
                    assert(cm[obj.category@] == string_views(before));
                }
                let ghost l = list;
                self.categories.set_at(i, list);
                proof {
                    assert(self.categories.view() == old(self).categories.view().insert(obj.category@, l));
                    assert(self.category_map() =~= cm.insert(obj.category@, cm[obj.category@].push(obj.name@)));
                }
            },
            None => {
                let mut list: Vec<String> = Vec::new();
                list.push(name.clone());
                proof {
                    assert(string_views(list@) =~= seq![obj.name@]);
                    assert(!cm.contains_key(obj.category@));
                }
                let ghost l = list;
                self.categories.insert(category.clone(), list);
                proof {
                    assert(self.category_map() =~= cm.insert(obj.category@, seq![obj.name@]));
                }
            },
        }
        if self.expanded_categories.find(category.as_str()).is_none() {
            self.expanded_categories.insert(category, true);
        } else {
            proof {
                assert(self.expanded_categories.view().contains_key(obj.category@));
            }
        }
    }

    /// Registers an asset under its name, replacing any asset of that name.
    /// Its name is added last to its category, a new category starts
    /// expanded, and the first asset registered becomes the selected one.
    pub fn register(&mut self, object: MapObject)
        requires
            old(self).wf(),
        ensures
            final(self).wf(),
            registered(*old(self), *final(self), object),
    {
        let is_first = self.is_empty();
        let name = object.name.clone();
        self.store(AssetEntry::new(object));
        if is_first {
            self.selected_asset = Some(name);
        }
    }

    /// Registers an asset with the thumbnail texture `preview_id`, replacing
    /// any asset of that name; unlike [`AssetPalette::register`], it never
    /// selects the asset.
    pub fn register_with_preview(&mut self, object: MapObject, preview_id: TextureId)
        requires
            old(self).wf(),
        ensures
            final(self).wf(),
            registered_with_preview(*old(self), *final(self), object, preview_id),
    {
        self.store(AssetEntry::new(object).with_preview(preview_id));
    }

    /// The entry of the asset named `name`.
    pub fn get(&self, name: &str) -> (r: Option<&AssetEntry>)
        requires
            self.wf(),
        ensures
            match r {
                Some(e) => self.entries().contains_key(name@) && *e == self.entries()[name@]
                    && e.object.name@ == name@,
                None => !self.entries().contains_key(name@),
            },
    {
        proof {
            self.assets.lemma_shape();
            if self.assets.keys().contains(name@) {
                let i = self.assets.keys().index_of(name@);
                crate::str_map::lemma_index_of_distinct(self.assets.keys(), i);
            }
        }
        self.assets.get(name)
    }

    /// The definition of the asset named `name`.
    pub fn get_object(&self, name: &str) -> (r: Option<&MapObject>)
        requires
            self.wf(),
        ensures
            match r {
                Some(o) => self.entries().contains_key(name@) && *o == self.entries()[name@].object
                    && o.name@ == name@,
                None => !self.entries().contains_key(name@),
            },
    {
        match self.get(name) {
            Some(e) => Some(&e.object),
            None => None,
        }
    }

    /// The name of the asset selected for placement.
    pub fn selected(&self) -> (r: Option<&str>)
        requires
            self.wf(),
        ensures
            match r {
                Some(s) => self.selected_name() == Some(s@),
                None => self.selected_name() is None,
            },
    {
        match &self.selected_asset {
            Some(s) => Some(s.as_str()),
            None => None,
        }
    }

    /// The definition of the selected asset, if one is selected and registered.
    pub fn selected_object(&self) -> (r: Option<&MapObject>)
        requires
            self.wf(),
        ensures
            match r {
                Some(o) => self.selected_name() matches Some(n) && self.entries().contains_key(n)
                    && *o == self.entries()[n].object,
                None => self.selected_name() matches Some(n) ==> !self.entries().contains_key(n),
            },
    {
        match &self.selected_asset {
            Some(name) => self.get_object(name.as_str()),
            None => None,
        }
    }

    /// Selects the asset named `name` for placement (registered or not).
    pub fn select(&mut self, name: &str)
        requires
            old(self).wf(),
        ensures
            final(self).wf(),
            final(self).selected_name() == Some(name@),
            final(self).entries() == old(self).entries(),
            final(self).category_map() == old(self).category_map(),
            final(self).category_order() == old(self).category_order(),
            final(self).expanded() == old(self).expanded(),
            final(self).filter() == old(self).filter(),
    {
        self.selected_asset = Some(name.to_owned());
    }

    /// Clears the selection.
    pub fn deselect(&mut self)
        requires
            old(self).wf(),
        ensures
            final(self).wf(),
            final(self).selected_name() is None,
            final(self).entries() == old(self).entries(),
            final(self).category_map() == old(self).category_map(),
            final(self).category_order() == old(self).category_order(),
            final(self).expanded() == old(self).expanded(),
            final(self).filter() == old(self).filter(),
    {
        self.selected_asset = None;
    }

    /// All category names, in the order they were first used.
    pub fn categories(&self) -> (r: Vec<String>)
        requires
            self.wf(),
        ensures
            string_views(r@) == self.category_order(),
    {
        let mut r: Vec<String> = Vec::new();
        let mut i: usize = 0;
        while i < self.categories.len()
            invariant
                i <= self.categories.keys().len(),
                string_views(r@) == self.categories.keys().subrange(0, i as int),
            decreases self.categories.keys().len() - i,
        {
            let ghost prev = r@;
            let k = self.categories.key_at(i).clone();
            r.push(k);
            assert(string_views(r@) =~= string_views(prev).push(k@));
            assert(string_views(r@) =~= self.categories.keys().subrange(0, i + 1));
            i = i + 1;
        }
        assert(self.categories.keys().subrange(0, i as int) =~= self.categories.keys());
        r
    }

    /// The asset names of a category, in registration order.
    pub fn assets_in_category(&self, category: &str) -> (r: Option<&Vec<String>>)
        requires
            self.wf(),
        ensures
            match r {
                Some(v) => self.category_map().contains_key(category@) && string_views(v@)
                    == self.category_map()[category@],
                None => !self.category_map().contains_key(category@),
            },
    {
        self.categories.get(category)
    }

    /// Sets the search filter to the lowercase form of `filter`.
    pub fn set_filter(&mut self, filter: &str)
        requires
            old(self).wf(),
        ensures
            final(self).wf(),
            final(self).filter() == lowercase(filter@),
            final(self).entries() == old(self).entries(),
            final(self).category_map() == old(self).category_map(),
            final(self).category_order() == old(self).category_order(),
            final(self).expanded() == old(self).expanded(),
            final(self).selected_name() == old(self).selected_name(),
    {
        self.search_filter = to_lowercase(filter);
    }

    /// Clears the search filter.
    pub fn clear_filter(&mut self)
        requires
            old(self).wf(),
        ensures
            final(self).wf(),
            final(self).filter() == Seq::<char>::empty(),
            final(self).entries() == old(self).entries(),
            final(self).category_map() == old(self).category_map(),
            final(self).category_order() == old(self).category_order(),
            final(self).expanded() == old(self).expanded(),
            final(self).selected_name() == old(self).selected_name(),
    {
        self.search_filter = String::new();
    }

    /// Whether the asset named `name` matches the search filter: every asset
    /// matches an empty filter; otherwise the asset must be registered and the
    /// filter must occur in the lowercase form of its name, display name or
    /// category.
    pub fn matches_filter(&self, name: &str) -> (b: bool)
        requires
            self.wf(),
        ensures
            b == (self.filter().len() == 0 || (self.entries().contains_key(name@) && ({
                let o = self.entries()[name@].object;
                occurs_in(lowercase(o.name@), self.filter()) || occurs_in(
                    lowercase(o.display_name@),
                    self.filter(),
                ) || occurs_in(lowercase(o.category@), self.filter())
            }))),
    {
        if self.search_filter.unicode_len() == 0 {
            return true;
        }
        let entry = match self.get(name) {
            Some(e) => e,
            None => return false,
        };
        let filter = self.search_filter.as_str();
        text_contains(to_lowercase(entry.object.name.as_str()).as_str(), filter) || text_contains(
            to_lowercase(entry.object.display_name.as_str()).as_str(),
            filter,
        ) || text_contains(to_lowercase(entry.object.category.as_str()).as_str(), filter)
    }

    /// Flips whether a known category is expanded; unknown categories stay unknown.
    pub fn toggle_category(&mut self, category: &str)
        requires
            old(self).wf(),
        ensures
            final(self).wf(),
            final(self).expanded() == if old(self).expanded().contains_key(category@) {
                old(self).expanded().insert(category@, !old(self).expanded()[category@])
            } else {
                old(self).expanded()
            },
            final(self).entries() == old(self).entries(),
            final(self).category_map() == old(self).category_map(),
            final(self).category_order() == old(self).category_order(),
            final(self).selected_name() == old(self).selected_name(),
            final(self).filter() == old(self).filter(),
    {
        proof {
            self.expanded_categories.lemma_shape();
        }
        match self.expanded_categories.find(category) {
            Some(i) => {
                let e = *self.expanded_categories.value_at(i);
                proof {
                    crate::str_map::lemma_index_of_distinct(self.expanded_categories.keys(), i as int);
                }
                self.expanded_categories.set_at(i, !e);
            },
            None => {},
        }
    }

    /// Whether a category is expanded; unknown categories count as expanded.
    pub fn is_category_expanded(&self, category: &str) -> (b: bool)
        requires
            self.wf(),
        ensures
            b == if self.expanded().contains_key(category@) {
                self.expanded()[category@]
            } else {
                true
            },
    {
        match self.expanded_categories.get(category) {
            Some(e) => *e,
            None => true,
        }
    }

    /// The search filter text.
    pub fn search_filter(&self) -> (s: &str)
        requires
            self.wf(),
        ensures
            s@ == self.filter(),
    {
        self.search_filter.as_str()
    }

    /// The search filter, for editing in place (a text field edits it as typed).
    pub fn search_filter_mut(&mut self) -> (r: &mut String)
        requires
            old(self).wf(),
        ensures
            r@ == old(self).filter(),
            final(self).filter() == final(r)@,
            final(self).wf(),
            final(self).entries() == old(self).entries(),
            final(self).category_map() == old(self).category_map(),
            final(self).category_order() == old(self).category_order(),
            final(self).expanded() == old(self).expanded(),
            final(self).selected_name() == old(self).selected_name(),
    {
        &mut self.search_filter
    }

    /// Gives an asset of a kind other than circle a new visual of that kind,
    /// named after the asset; its size stays. Unknown names change nothing.
    pub fn convert_asset_to(&mut self, name: &str, kind: AssetKind)
        requires
            old(self).wf(),
            kind != AssetKind::Circle,
        ensures
            final(self).wf(),
            old(self).entries().contains_key(name@) ==> {
                &&& final(self).entries().contains_key(name@)
                &&& final(self).entries() == old(self).entries().insert(name@, final(self).entries()[name@])
                &&& final(self).entries()[name@] == (AssetEntry {
                    object: MapObject {
                        visual: final(self).entries()[name@].object.visual,
                        ..old(self).entries()[name@].object
                    },
                    ..old(self).entries()[name@]
                })
                &&& converted_visual(kind, name@, final(self).entries()[name@].object.visual)
            },
            !old(self).entries().contains_key(name@) ==> final(self).entries() == old(self).entries(),
            final(self).category_map() == old(self).category_map(),
            final(self).category_order() == old(self).category_order(),
            final(self).expanded() == old(self).expanded(),
            final(self).selected_name() == old(self).selected_name(),
            final(self).filter() == old(self).filter(),
    {
        proof {
            self.assets.lemma_shape();
        }
        match self.assets.find(name) {
            Some(i) => {
                proof {
                    crate::str_map::lemma_index_of_distinct(self.assets.keys(), i as int);
                }
                let (key, entry) = self.assets.remove_at(i);
                proof {
                    lemma_removed_key_gone(old(self).assets.keys(), i as int);
                }
                let texture_name = key.clone();
                let visual = match kind {
                    AssetKind::Texture => ObjectVisual::Texture { texture_name, tint: ColorBits::white() },
                    AssetKind::SpriteSheet => ObjectVisual::SpriteSheet {
                        texture_name,
                        frame_count: 1,
                        current_frame: 0,
                        fps_bits: DEFAULT_FPS_BITS,
                        tint: ColorBits::white(),
                    },
                    AssetKind::Tileset => ObjectVisual::Tileset {
                        texture_name,
                        columns: 1,
                        rows: 1,
                        selected_tile: 0,
                        ignored_tiles: Vec::new(),
                        tint: ColorBits::white(),
                    },
                    AssetKind::NineSlice => ObjectVisual::NineSlice {
                        texture_name,
                        left: 8,
                        right: 8,
                        top: 8,
                        bottom: 8,
                        tint: ColorBits::white(),
                    },
                    _ => ObjectVisual::Rect { color: ColorBits::white() },
                };
                let new_entry = AssetEntry {
                    object: MapObject { visual, ..entry.object },
                    preview_texture_id: entry.preview_texture_id,
                };
                let ghost ne = new_entry;
                self.assets.insert_at(i, key, new_entry);
                proof {
                    let ok = old(self).assets.keys();
                    assert(self.assets.keys() =~= ok);
                    assert(self.assets.vals() =~= old(self).assets.vals().update(i as int, ne));
                    StrMap::lemma_update_view(&old(self).assets, &self.assets, i as int, ne);
                }
            },
            None => {},
        }
    }

    /// Gives an asset a circle visual of radius `radius_bits`, in white, and
    /// the size `size` (the circle's bounding square). Unknown names change nothing.
    pub fn convert_asset_to_circle(&mut self, name: &str, radius_bits: u32, size: Vec2Bits)
        requires
            old(self).wf(),
        ensures
            final(self).wf(),
            old(self).entries().contains_key(name@) ==> final(self).entries() == old(
                self,
            ).entries().insert(
                name@,
                AssetEntry {
                    object: MapObject {
                        visual: ObjectVisual::Circle { radius_bits, color: white() },
                        size,
                        ..old(self).entries()[name@].object
                    },
                    ..old(self).entries()[name@]
                },
            ),
            !old(self).entries().contains_key(name@) ==> final(self).entries() == old(self).entries(),
            final(self).category_map() == old(self).category_map(),
            final(self).category_order() == old(self).category_order(),
            final(self).expanded() == old(self).expanded(),
            final(self).selected_name() == old(self).selected_name(),
            final(self).filter() == old(self).filter(),
    {
        proof {
            self.assets.lemma_shape();
        }
        match self.assets.find(name) {
            Some(i) => {
                proof {
                    crate::str_map::lemma_index_of_distinct(self.assets.keys(), i as int);
                }
                let (key, entry) = self.assets.remove_at(i);
                proof {
                    lemma_removed_key_gone(old(self).assets.keys(), i as int);
                }
                let new_entry = AssetEntry {
                    object: MapObject {
                        visual: ObjectVisual::Circle { radius_bits, color: ColorBits::white() },
                        size,
                        ..entry.object
                    },
                    preview_texture_id: entry.preview_texture_id,
                };
                let ghost ne = new_entry;
                self.assets.insert_at(i, key, new_entry);
                proof {
                    let ok = old(self).assets.keys();
                    assert(self.assets.keys() =~= ok);
                    assert(self.assets.vals() =~= old(self).assets.vals().update(i as int, ne));
                    StrMap::lemma_update_view(&old(self).assets, &self.assets, i as int, ne);
                }
            },
            None => {},
        }
    }
}

impl Default for AssetPalette {
    fn default() -> (p: AssetPalette)
        ensures
            p.wf(),
            p.entries() == Map::<Seq<char>, AssetEntry>::empty(),
            p.category_order() == Seq::<Seq<char>>::empty(),
            p.category_map() == Map::<Seq<char>, Seq<Seq<char>>>::empty(),
            p.expanded() == Map::<Seq<char>, bool>::empty(),
            p.selected_name() is None,
            p.filter() == Seq::<char>::empty(),
    {
        AssetPalette::new()
    }
}

} // verus!
