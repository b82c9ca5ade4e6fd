//! The part of the database schema that column extraction consults.
use vstd::prelude::*;

verus! {

/// How a generated column is computed: the columns it is derived from.
#[derive(Debug)]
pub struct Generated {
    pub from: Vec<String>,
}

/// A column of a table.
#[derive(Debug)]
pub struct Column {
    pub name: String,
    pub generated: Option<Generated>,
}

/// A table: its name and its columns in declaration order.
#[derive(Debug)]
pub struct Table {
    pub name: String,
    pub columns: Vec<Column>,
}

/// The tables known to the store.
#[derive(Debug)]
pub struct Schema {
    pub tables: Vec<Table>,
}

/// The first table of `ts` named `n`.
pub open spec fn find_table(ts: Seq<Table>, n: Seq<char>) -> Option<Table>
    decreases ts.len(),
{
    if ts.len() == 0 {
        None
    } else if ts[0].name@ == n {
        Some(ts[0])
    } else {
        find_table(ts.subrange(1, ts.len() as int), n)
    }
}

/// The first column of `cs` named `n`.
pub open spec fn find_column(cs: Seq<Column>, n: Seq<char>) -> Option<Column>
    decreases cs.len(),
{
    if cs.len() == 0 {
        None
    } else if cs[0].name@ == n {
        Some(cs[0])
    } else {
        find_column(cs.subrange(1, cs.len() as int), n)
    }
}

impl Schema {
    /// The table named `n`, if the schema has one.
    pub open spec fn table(self, n: Seq<char>) -> Option<Table> {
        find_table(self.tables@, n)
    }

    /// Whether the schema has a table named `n`.
    pub open spec fn has_table(self, n: Seq<char>) -> bool {
        self.table(n) is Some
    }

    /// Whether table `t` of the schema has a column named `c`.
    pub open spec fn table_has_column(self, t: Seq<char>, c: Seq<char>) -> bool {
        match self.table(t) {
            Some(tbl) => find_column(tbl.columns@, c) is Some,
            None => false,
        }
    }

    /// The columns that generated column `c` of table `t` is computed from,
    /// if `c` is a generated column of `t`.
    pub open spec fn generated_from(self, t: Seq<char>, c: Seq<char>) -> Option<Seq<String>> {
        match self.table(t) {
            Some(tbl) => match find_column(tbl.columns@, c) {
                Some(col) => match col.generated {
                    Some(g) => Some(g.from@),
                    None => None,
                },
                None => None,
            },
            None => None,
        }
    }

    /// The number of columns of table `t` (0 when there is no such table).
    pub open spec fn column_count(self, t: Seq<char>) -> nat {
        match self.table(t) {
            Some(tbl) => tbl.columns@.len(),
            None => 0,
        }
    }

    /// The stored columns that column `c` of table `t` stands for: `c`
    /// itself when it is not generated, else, recursively, those of the
    /// columns it is computed from.  `fuel` bounds the depth.
    pub open spec fn base_columns(self, t: Seq<char>, c: Seq<char>, fuel: nat) -> Set<Seq<char>>
        decreases fuel, 0nat, 0nat,
    {
        match self.generated_from(t, c) {
            None => set![c],
            Some(from) => if fuel == 0 {
                Set::empty()
            } else {
                self.base_columns_of(t, from, (fuel - 1) as nat)
            },
        }
    }

    /// The union of `base_columns` over the columns `cs`.
    pub open spec fn base_columns_of(self, t: Seq<char>, cs: Seq<String>, fuel: nat) -> Set<
        Seq<char>,
    >
        decreases fuel, 1nat, cs.len(),
    {
        if cs.len() == 0 {
            Set::empty()
        } else {
            self.base_columns(t, cs[0]@, fuel).union(
                self.base_columns_of(t, cs.subrange(1, cs.len() as int), fuel),
            )
        }
    }

    /// Whether expanding column `c` of table `t` into stored columns
    /// finishes within `fuel` levels.
    pub open spec fn expands_within(self, t: Seq<char>, c: Seq<char>, fuel: nat) -> bool
        decreases fuel, 0nat, 0nat,
    {
        match self.generated_from(t, c) {
            None => true,
            Some(from) => fuel > 0 && self.all_expand_within(t, from, (fuel - 1) as nat),
        }
    }

    /// Whether every column of `cs` expands within `fuel` levels.
    pub open spec fn all_expand_within(self, t: Seq<char>, cs: Seq<String>, fuel: nat) -> bool
        decreases fuel, 1nat, cs.len(),
    {
        cs.len() == 0 || (self.expands_within(t, cs[0]@, fuel) && self.all_expand_within(
            t,
            cs.subrange(1, cs.len() as int),
            fuel,
        ))
    }

    /// The generated columns of every table depend on each other without a
    /// cycle: expanding any column into stored columns takes no more levels
    /// than the table has columns.
    pub open spec fn wf(self) -> bool {
        forall|i: int, j: int|
            0 <= i < self.tables@.len() && 0 <= j < self.tables@[i].columns@.len() ==>
                #[trigger] self.expands_within(
                    self.tables@[i].name@,
                    self.tables@[i].columns@[j].name@,
                    self.tables@[i].columns@.len(),
                )
    }
}

/// A table found by `find_table` is one of the tables, with the name asked for.
pub proof fn lemma_find_table(ts: Seq<Table>, n: Seq<char>)
    ensures
        find_table(ts, n) matches Some(t) ==> exists|i: int|
            0 <= i < ts.len() && ts[i] == t && #[trigger] ts[i].name@ == n,
    decreases ts.len(),
{
    if ts.len() > 0 && ts[0].name@ != n {
        lemma_find_table(ts.subrange(1, ts.len() as int), n);
        if let Some(t) = find_table(ts, n) {
            let i = choose|i: int|
                0 <= i < ts.len() - 1 && ts.subrange(1, ts.len() as int)[i] == t
                    && #[trigger] ts.subrange(1, ts.len() as int)[i].name@ == n;
            assert(ts[i + 1].name@ == n);
        }
    }
}

/// A column found by `find_column` is one of the columns.
pub proof fn lemma_find_column(cs: Seq<Column>, n: Seq<char>)
    ensures
        find_column(cs, n) matches Some(c) ==> exists|j: int|
            0 <= j < cs.len() && #[trigger] cs[j] == c,
    decreases cs.len(),
{
    if cs.len() > 0 && cs[0].name@ != n {
        lemma_find_column(cs.subrange(1, cs.len() as int), n);
        if let Some(c) = find_column(cs, n) {
            let j = choose|j: int|
                0 <= j < cs.len() - 1 && #[trigger] cs.subrange(1, cs.len() as int)[j] == c;
            assert(cs[j + 1] == c);
        }
    }
}

/// In a well-formed schema every column expands within as many levels as
/// its table has columns.
pub proof fn lemma_wf_expands(s: Schema, t: Seq<char>, c: Seq<char>)
    requires
        s.wf(),
    ensures
        s.expands_within(t, c, s.column_count(t)),
{
    if let Some(from) = s.generated_from(t, c) {
        lemma_find_table(s.tables@, t);
        let tbl = s.table(t).unwrap();
        let i = choose|i: int|
            0 <= i < s.tables@.len() && s.tables@[i] == tbl && #[trigger] s.tables@[i].name@ == t;
        lemma_find_column(tbl.columns@, c);
        let col = find_column(tbl.columns@, c).unwrap();
        let j = choose|j: int| 0 <= j < tbl.columns@.len() && #[trigger] tbl.columns@[j] == col;
        assert(s.expands_within(
            s.tables@[i].name@,
            s.tables@[i].columns@[j].name@,
            s.tables@[i].columns@.len(),
        ));
        lemma_find_column_name(tbl.columns@, c);
    }
}

/// A column found by `find_column` has the name asked for.
pub proof fn lemma_find_column_name(cs: Seq<Column>, n: Seq<char>)
    ensures
        find_column(cs, n) matches Some(c) ==> c.name@ == n,
    decreases cs.len(),
{
    if cs.len() > 0 && cs[0].name@ != n {
        lemma_find_column_name(cs.subrange(1, cs.len() as int), n);
    }
}

impl Schema {
    /// Looks up a table by name.
    pub fn get_table(&self, name: &String) -> (r: Option<&Table>)
        ensures
            r matches Some(t) ==> self.table(name@) == Some(*t),
            r is None ==> self.table(name@) is None,
    {
        let mut i: usize = 0;
        assert(self.tables@.subrange(0, self.tables@.len() as int) =~= self.tables@);
        while i < self.tables.len()
            invariant
                i <= self.tables@.len(),
                find_table(self.tables@, name@) == find_table(
                    self.tables@.subrange(i as int, self.tables@.len() as int),
                    name@,
                ),
            decreases self.tables@.len() - i,
        {
            let ghost rest = self.tables@.subrange(i as int, self.tables@.len() as int);
            if self.tables[i].name == *name {
                return Some(&self.tables[i]);
            }
            assert(rest.subrange(1, rest.len() as int) =~= self.tables@.subrange(
                i + 1,
                self.tables@.len() as int,
            ));
            i = i + 1;
        }
        None
    }
}

impl Table {
    /// Looks up a column by name.
    pub fn get_column(&self, name: &String) -> (r: Option<&Column>)
        ensures
            r matches Some(c) ==> find_column(self.columns@, name@) == Some(*c),
            r is None ==> find_column(self.columns@, name@) is None,
    {
        let mut i: usize = 0;
        assert(self.columns@.subrange(0, self.columns@.len() as int) =~= self.columns@);
        while i < self.columns.len()
            invariant
                i <= self.columns@.len(),
                find_column(self.columns@, name@) == find_column(
                    self.columns@.subrange(i as int, self.columns@.len() as int),
                    name@,
                ),
            decreases self.columns@.len() - i,
        {
            let ghost rest = self.columns@.subrange(i as int, self.columns@.len() as int);
            if self.columns[i].name == *name {
                return Some(&self.columns[i]);
            }
            assert(rest.subrange(1, rest.len() as int) =~= self.columns@.subrange(
                i + 1,
                self.columns@.len() as int,
            ));
            i = i + 1;
        }
        None
    }
}

impl Schema {
    /// Whether expanding column `c` of table `t` into stored columns
    /// finishes within `fuel` levels.
    fn check_expands(&self, t: &String, c: &String, fuel: usize) -> (r: bool)
        ensures
            r == self.expands_within(t@, c@, fuel as nat),
        decreases fuel, 0nat, 0nat,
    {
        if let Some(tbl) = self.get_table(t) {
            if let Some(col) = tbl.get_column(c) {
                if let Some(g) = &col.generated {
                    assert(self.generated_from(t@, c@) == Some(g.from@));
                    if fuel == 0 {
                        return false;
                    }
                    assert(g.from@.subrange(0, g.from@.len() as int) =~= g.from@);
                    return self.check_all_expand(t, &g.from, 0, fuel - 1);
                }
            }
        }
        true
    }

    /// Whether every column of `cs` from position `start` on expands within
    /// `fuel` levels.
    fn check_all_expand(&self, t: &String, cs: &Vec<String>, start: usize, fuel: usize) -> (r: bool)
        requires
            start <= cs@.len(),
        ensures
            r == self.all_expand_within(t@, cs@.subrange(start as int, cs@.len() as int), fuel as nat),
        decreases fuel, 1nat, cs@.len() - start,
    {
        let ghost rest = cs@.subrange(start as int, cs@.len() as int);
        if start == cs.len() {
            return true;
        }
        assert(rest.subrange(1, rest.len() as int) =~= cs@.subrange(start + 1, cs@.len() as int));
        assert(rest[0] == cs@[start as int]);
        if !self.check_expands(t, &cs[start], fuel) {
            return false;
        }
        self.check_all_expand(t, cs, start + 1, fuel)
    }

    /// Whether the schema is well formed: no generated column depends on
    /// itself, directly or through other generated columns.
    pub fn is_well_formed(&self) -> (r: bool)
        ensures
            r == self.wf(),
    {
        let mut i: usize = 0;
        while i < self.tables.len()
            invariant
                i <= self.tables@.len(),
                forall|a: int, b: int|
                    0 <= a < i && 0 <= b < self.tables@[a].columns@.len() ==>
                        #[trigger] self.expands_within(
                            self.tables@[a].name@,
                            self.tables@[a].columns@[b].name@,
                            self.tables@[a].columns@.len(),
                        ),
            decreases self.tables@.len() - i,
        {
            let tbl = &self.tables[i];
            let mut j: usize = 0;
            while j < tbl.columns.len()
                invariant
                    i < self.tables@.len(),
                    *tbl == self.tables@[i as int],
                    j <= tbl.columns@.len(),
                    forall|a: int, b: int|
                        0 <= a < i && 0 <= b < self.tables@[a].columns@.len() ==>
                            #[trigger] self.expands_within(
                                self.tables@[a].name@,
                                self.tables@[a].columns@[b].name@,
                                self.tables@[a].columns@.len(),
                            ),
                    forall|b: int|
                        0 <= b < j ==> #[trigger] self.expands_within(
                            self.tables@[i as int].name@,
                            self.tables@[i as int].columns@[b].name@,
                            self.tables@[i as int].columns@.len(),
                        ),
                decreases tbl.columns@.len() - j,
            {
                if !self.check_expands(&tbl.name, &tbl.columns[j].name, tbl.columns.len()) {
                    return false;
                }
                j = j + 1;
            }
            i = i + 1;
        }
        true
    }
}

/// A column stands only for stored columns: no column it expands to is a
/// generated column of its table.
pub proof fn law_expansion_is_stored(s: Schema, t: Seq<char>, c: Seq<char>, fuel: nat)
    ensures
        forall|x: Seq<char>| #[trigger] s.base_columns(t, c, fuel).contains(x) ==> s.generated_from(t, x) is None,
    decreases fuel, 0nat, 0nat,
{
    match s.generated_from(t, c) {
        None => {
            assert(s.base_columns(t, c, fuel) == set![c]);
        },
        Some(from) => {
            if fuel > 0 {
                lemma_expansion_of_list_is_stored(s, t, from, (fuel - 1) as nat);
                assert(s.base_columns(t, c, fuel) == s.base_columns_of(t, from, (fuel - 1) as nat));
            } else {
                assert(s.base_columns(t, c, fuel) == Set::<Seq<char>>::empty());
            }
        },
    }
}

/// The expansion of a list of columns takes in the expansion of each of them.
proof fn lemma_list_expansion_has_each(s: Schema, t: Seq<char>, cs: Seq<String>, fuel: nat, i: int)
    requires
        0 <= i < cs.len(),
    ensures
        s.base_columns(t, cs[i]@, fuel).subset_of(s.base_columns_of(t, cs, fuel)),
    decreases cs.len(),
{
    let rest = cs.subrange(1, cs.len() as int);
    if i > 0 {
        lemma_list_expansion_has_each(s, t, rest, fuel, i - 1);
        assert(rest[i - 1] == cs[i]);
    }
}

/// A generated column stands for every column it is computed from: the
/// expansion of each source is part of the expansion of the column, so a
/// source that is stored is itself among the columns it expands to.
pub proof fn law_sources_are_expanded(s: Schema, t: Seq<char>, c: Seq<char>, fuel: nat, i: int)
    requires
        s.generated_from(t, c) is Some,
        fuel > 0,
        0 <= i < s.generated_from(t, c).unwrap().len(),
    ensures
        s.base_columns(t, s.generated_from(t, c).unwrap()[i]@, (fuel - 1) as nat).subset_of(
            s.base_columns(t, c, fuel),
        ),
        s.generated_from(t, s.generated_from(t, c).unwrap()[i]@) is None ==> s.base_columns(
            t,
            c,
            fuel,
        ).contains(s.generated_from(t, c).unwrap()[i]@),
{
    let from = s.generated_from(t, c).unwrap();
    lemma_list_expansion_has_each(s, t, from, (fuel - 1) as nat, i);
    assert(s.base_columns(t, c, fuel) == s.base_columns_of(t, from, (fuel - 1) as nat));
    if s.generated_from(t, from[i]@) is None {
        assert(s.base_columns(t, from[i]@, (fuel - 1) as nat).contains(from[i]@));
    }
}

/// A column in the expansion of a list of columns is in the expansion of
/// one of them.
proof fn lemma_list_expansion_from_one(s: Schema, t: Seq<char>, cs: Seq<String>, fuel: nat, x: Seq<char>)
    requires
        s.base_columns_of(t, cs, fuel).contains(x),
    ensures
        exists|i: int| 0 <= i < cs.len() && #[trigger] s.base_columns(t, cs[i]@, fuel).contains(x),
    decreases cs.len(),
{
    let rest = cs.subrange(1, cs.len() as int);
    if s.base_columns(t, cs[0]@, fuel).contains(x) {
        assert(s.base_columns(t, cs[0]@, fuel).contains(x));
    } else {
        lemma_list_expansion_from_one(s, t, rest, fuel, x);
        let i = choose|i: int| 0 <= i < rest.len() && #[trigger] s.base_columns(t, rest[i]@, fuel).contains(x);
        assert(rest[i] == cs[i + 1]);
        assert(s.base_columns(t, cs[i + 1]@, fuel).contains(x));
    }
}

/// A column expands to nothing but itself, when it is stored, or, when it
/// is generated, to what the columns it is computed from expand to.
pub proof fn law_expansion_comes_from_sources(s: Schema, t: Seq<char>, c: Seq<char>, fuel: nat, x: Seq<char>)
    requires
        s.base_columns(t, c, fuel).contains(x),
    ensures
        s.generated_from(t, c) is None ==> x == c,
        s.generated_from(t, c) is Some ==> fuel > 0 && exists|i: int|
            0 <= i < s.generated_from(t, c).unwrap().len() && #[trigger] s.base_columns(
                t,
                s.generated_from(t, c).unwrap()[i]@,
                (fuel - 1) as nat,
            ).contains(x),
{
    if let Some(from) = s.generated_from(t, c) {
        if fuel > 0 {
            lemma_list_expansion_from_one(s, t, from, (fuel - 1) as nat, x);
        }
    }
}

/// `law_expansion_is_stored` for a list of columns.
proof fn lemma_expansion_of_list_is_stored(s: Schema, t: Seq<char>, cs: Seq<String>, fuel: nat)
    ensures
        forall|x: Seq<char>| #[trigger] s.base_columns_of(t, cs, fuel).contains(x) ==> s.generated_from(t, x) is None,
    decreases fuel, 1nat, cs.len(),
{
    if cs.len() > 0 {
        let rest = cs.subrange(1, cs.len() as int);
        law_expansion_is_stored(s, t, cs[0]@, fuel);
        lemma_expansion_of_list_is_stored(s, t, rest, fuel);
        assert(s.base_columns_of(t, cs, fuel) == s.base_columns(t, cs[0]@, fuel).union(
            s.base_columns_of(t, rest, fuel),
        ));
    } else {
        assert(s.base_columns_of(t, cs, fuel) == Set::<Seq<char>>::empty());
    }
}

} // verus!
