//! Colours and the registry of named colours used by the markup printer.
use vstd::prelude::*;

verus! {

/// A colour as red, green, blue and alpha components.
pub type Color = (u8, u8, u8, u8);

/// The foreground a print uses where no markup colour is active.
pub const DEFAULT_FORE: Color = (255, 255, 255, 255);

/// The mapping described by a list of registrations: a later
/// registration of a name replaces an earlier one.
pub open spec fn registry_map(s: Seq<(Seq<char>, Color)>) -> Map<Seq<char>, Color>
    decreases s.len(),
{
    if s.len() == 0 {
        Map::empty()
    } else {
        registry_map(s.drop_last()).insert(s.last().0, s.last().1)
    }
}

/// A mapping from colour names to colours.
pub struct ColorRegistry {
    entries: Vec<(String, Color)>,
}

impl View for ColorRegistry {
    type V = Map<Seq<char>, Color>;

    closed spec fn view(&self) -> Map<Seq<char>, Color> {
        registry_map(self.entry_views())
    }
}

/// Whether two strings hold the same characters.
pub fn same_text(a: &str, b: &str) -> (r: bool)
    ensures
        r == (a@ == b@),
{
    let n = a.unicode_len();
    if n != b.unicode_len() {
        return false;
    }
    let mut i: usize = 0;
    while i < n
        invariant
            n == a@.len(),
            n == b@.len(),
            i <= n,
            forall|k: int| 0 <= k < i ==> a@[k] == b@[k],
        decreases n - i,
    {
        if a.get_char(i) != b.get_char(i) {
            return false;
        }
        i = i + 1;
    }
    assert(a@ =~= b@);
    true
}

impl ColorRegistry {
    closed spec fn entry_views(&self) -> Seq<(Seq<char>, Color)> {
        self.entries@.map_values(|e: (String, Color)| (e.0@, e.1))
    }

    /// An empty registry.
    pub fn new() -> (r: ColorRegistry)
        ensures
            r@ == Map::<Seq<char>, Color>::empty(),
    {
        ColorRegistry { entries: Vec::new() }
    }

    /// Binds `name` to `value`, replacing any earlier binding of the name.
    pub fn register(&mut self, name: &str, value: Color)
        ensures
            final(self)@ == old(self)@.insert(name@, value),
    {
        let ghost before = self.entry_views();
        self.entries.push((name.to_owned(), value));
        assert(self.entry_views().drop_last() =~= before);
    }

    /// The colour bound to `name`, if any.
    pub fn lookup(&self, name: &str) -> (r: Option<Color>)
        ensures
            r == (if self@.contains_key(name@) { Some(self@[name@]) } else { None::<Color> }),
    {
        let ghost s = self.entry_views();
        let mut j: usize = self.entries.len();
        assert(s.take(j as int) =~= s);
        while j > 0
            invariant
                j <= s.len(),
                s.len() == self.entries@.len(),
                s == self.entry_views(),
                registry_map(s.take(j as int)).contains_key(name@) == registry_map(s).contains_key(
                    name@,
                ),
                registry_map(s.take(j as int)).contains_key(name@) ==> registry_map(
                    s.take(j as int),
                )[name@] == registry_map(s)[name@],
            decreases j,
        {
            let e = &self.entries[j - 1];
            assert(s.take(j as int).drop_last() =~= s.take(j - 1));
            assert(s.take(j as int).last() == s[j - 1]);
            if same_text(e.0.as_str(), name) {
                return Some(e.1);
            }
            j = j - 1;
        }
        assert(s.take(0) =~= Seq::<(Seq<char>, Color)>::empty());
        None
    }
}

} // verus!
