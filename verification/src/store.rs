use vstd::prelude::*;
use vstd::string::StringExecFns;

verus! {

/// A tagged value held under a name.
#[derive(Debug, Clone, PartialEq, Eq)]
pub enum Variable {
    Num(i32),
    Str(String),
    Clr { r: i16, g: i16, b: i16 },
}

/// What a variable is, with its text as a sequence of characters.
pub enum VariableView {
    Num(i32),
    Str(Seq<char>),
    Clr { r: i16, g: i16, b: i16 },
}

impl View for Variable {
    type V = VariableView;

    open spec fn view(&self) -> VariableView {
        match *self {
            Variable::Num(n) => VariableView::Num(n),
            Variable::Str(s) => VariableView::Str(s@),
            Variable::Clr { r, g, b } => VariableView::Clr { r, g, b },
        }
    }
}

/// The store as a mathematical map from names to values.
pub type Bindings = Map<Seq<char>, VariableView>;

/// One name with its value.
#[derive(Debug, Clone)]
struct Binding {
    name: String,
    value: Variable,
}

/// The flat, case-sensitive namespace of one run. No name is held twice.
#[derive(Debug, Clone)]
pub struct VariableStore {
    bindings: Vec<Binding>,
}

/// The store before any token runs: the cursor at the origin, the last row
/// and column of a display of `rows` by `cols` cells, the default colours, an
/// empty result, and the line of input that was waiting, if one was.
pub open spec fn seeded(rows: i32, cols: i32, input: Option<Seq<char>>) -> Bindings {
    let base = Map::<Seq<char>, VariableView>::empty().insert("x"@, VariableView::Num(0)).insert(
        "y"@,
        VariableView::Num(0),
    ).insert("G"@, VariableView::Num((rows - 1) as i32)).insert(
        "$"@,
        VariableView::Num((cols - 1) as i32),
    ).insert("foreground"@, VariableView::Clr { r: 1000, g: 1000, b: 1000 }).insert(
        "background"@,
        VariableView::Clr { r: 0, g: 0, b: 0 },
    ).insert("out"@, VariableView::Str(Seq::empty()));
    match input {
        Some(line) => base.insert("in"@, VariableView::Str(line)),
        None => base,
    }
}

/// The result of a run: the text under `out`, or the empty text where `out`
/// is missing or holds no text.
pub open spec fn output_of(bindings: Bindings) -> Seq<char> {
    if bindings.contains_key("out"@) {
        match bindings["out"@] {
            VariableView::Str(text) => text,
            _ => Seq::empty(),
        }
    } else {
        Seq::empty()
    }
}

impl VariableStore {
    /// No name occurs twice.
    pub closed spec fn wf(&self) -> bool {
        forall|i: int, j: int|
            0 <= i < j < self.bindings@.len() ==> (#[trigger] self.bindings@[i]).name@ != (
            #[trigger] self.bindings@[j]).name@
    }

    spec fn holds_at(&self, name: Seq<char>, i: int) -> bool {
        0 <= i < self.bindings@.len() && self.bindings@[i].name@ == name
    }

    spec fn place_of(&self, name: Seq<char>) -> int {
        choose|i: int| self.holds_at(name, i)
    }

    /// The names that are bound, each with its value.
    pub closed spec fn view(&self) -> Bindings {
        Map::new(
            |name: Seq<char>| exists|i: int| self.holds_at(name, i),
            |name: Seq<char>| self.bindings@[self.place_of(name)].value@,
        )
    }

    proof fn lemma_binding(&self, i: int)
        requires
            self.wf(),
            0 <= i < self.bindings@.len(),
        ensures
            self@.contains_key(self.bindings@[i].name@),
            self@[self.bindings@[i].name@] == self.bindings@[i].value@,
    {
        let name = self.bindings@[i].name@;
        assert(self.holds_at(name, i));
        let j = self.place_of(name);
        assert(self.holds_at(name, j));
        assert(i == j);
    }

    /// A store that binds nothing.
    pub fn new() -> (store: VariableStore)
        ensures
            store.wf(),
            store@ == Map::<Seq<char>, VariableView>::empty(),
    {
        let store = VariableStore { bindings: Vec::new() };
        proof {
            assert(store@ =~= Map::<Seq<char>, VariableView>::empty());
        }
        store
    }

    fn find(&self, name: &String) -> (place: Option<usize>)
        ensures
            match place {
                Some(i) => self.holds_at(name@, i as int),
                None => forall|i: int| !self.holds_at(name@, i),
            },
    {
        let mut i: usize = 0;
        while i < self.bindings.len()
            invariant
                i <= self.bindings@.len(),
                forall|j: int| 0 <= j < i ==> !self.holds_at(name@, j),
            decreases self.bindings@.len() - i,
        {
            if self.bindings[i].name == *name {
                return Some(i);
            }
            i = i + 1;
        }
        None
    }

    /// The value bound to `name`, if the store binds it.
    pub fn get(&self, name: &String) -> (value: Option<&Variable>)
        requires
            self.wf(),
        ensures
            match value {
                Some(v) => self@.contains_key(name@) && self@[name@] == v@,
                None => !self@.contains_key(name@),
            },
    {
        match self.find(name) {
            Some(i) => {
                proof {
                    self.lemma_binding(i as int);
                }
                Some(&self.bindings[i].value)
            },
            None => None,
        }
    }

    /// Binds `name` to `value`, whether or not the name was bound before.
    pub fn insert(&mut self, name: String, value: Variable)
        requires
            old(self).wf(),
        ensures
            final(self).wf(),
            final(self)@ == old(self)@.insert(name@, value@),
    {
        let ghost before = *self;
        let ghost key = name@;
        let ghost bound = value@;
        let ghost mut place: int = 0;
        match self.find(&name) {
            Some(i) => {
                self.bindings.set(i, Binding { name, value });
                proof {
                    place = i as int;
                    assert(forall|j: int|
                        0 <= j < before.bindings@.len() ==> (#[trigger] self.bindings@[j]).name@
                            == before.bindings@[j].name@);
                }
            },
            None => {
                self.bindings.push(Binding { name, value });
                proof {
                    place = before.bindings@.len() as int;
                    assert(forall|j: int| !before.holds_at(key, j));
                    assert(forall|j: int|
                        0 <= j < before.bindings@.len() ==> (#[trigger] self.bindings@[j])
                            == before.bindings@[j]);
                    assert forall|i: int, j: int|
                        0 <= i < j < self.bindings@.len() implies (
                    #[trigger] self.bindings@[i]).name@ != (#[trigger] self.bindings@[j]).name@ by {
                        if j == before.bindings@.len() {
                            assert(!before.holds_at(key, i));
                        }
                    }
                }
            },
        }
        proof {
            assert(self.wf());
            assert(self.holds_at(key, place) && self.bindings@[place].value@ == bound);
            let after = before@.insert(key, bound);
            assert forall|k: Seq<char>| #[trigger]
                self@.dom().contains(k) == after.dom().contains(k) && (after.dom().contains(k)
                    ==> self@[k] == after[k]) by {
                if self@.dom().contains(k) {
                    let i = choose|i: int| self.holds_at(k, i);
                    if k != key {
                        assert(before.holds_at(k, i));
                    }
                }
                if after.dom().contains(k) {
                    if k == key {
                        self.lemma_binding(place);
                    } else {
                        let i = before.place_of(k);
                        assert(before.holds_at(k, i));
                        before.lemma_binding(i);
                        assert(self.holds_at(k, i));
                        self.lemma_binding(i);
                    }
                }
            }
            assert(self@ =~= after);
        }
    }

    /// The text accumulated under `out`.
    pub fn output(&self) -> (text: String)
        requires
            self.wf(),
        ensures
            text@ == output_of(self@),
    {
        let key = String::from_str("out");
        match self.get(&key) {
            Some(Variable::Str(text)) => text.clone(),
            _ => String::new(),
        }
    }
}

/// Builds the store that a run starts from, for a display of `rows` by `cols`
/// cells and the line of input that was waiting, if any.
pub fn global_variables(rows: i32, cols: i32, input: Option<String>) -> (store: VariableStore)
    requires
        rows > i32::MIN,
        cols > i32::MIN,
    ensures
        store.wf(),
        store@ == seeded(
            rows,
            cols,
            match input {
                Some(line) => Some(line@),
                None => None,
            },
        ),
{
    let mut store = VariableStore::new();
    store.insert(String::from_str("x"), Variable::Num(0));
    store.insert(String::from_str("y"), Variable::Num(0));
    store.insert(String::from_str("G"), Variable::Num(rows - 1));
    store.insert(String::from_str("$"), Variable::Num(cols - 1));
    store.insert(String::from_str("foreground"), Variable::Clr { r: 1000, g: 1000, b: 1000 });
    store.insert(String::from_str("background"), Variable::Clr { r: 0, g: 0, b: 0 });
    store.insert(String::from_str("out"), Variable::Str(String::new()));
    match input {
        Some(line) => {
            store.insert(String::from_str("in"), Variable::Str(line));
        },
        None => {},
    }
    store
}

} // verus!
