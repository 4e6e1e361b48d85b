//! Canonical user records and the desired state built from decoded table rows.
use vstd::prelude::*;
use vstd::string::StringExecFns;

use crate::cell::{strings_view, CellModel, NextcloudTableCell};
use crate::table::{cells_view, entry_view, decode_row_spec, parse_nextcloud_table, Column, DecodedRow, SchemeResponse};

verus! {

/// The desired record of one user, independent of any backend.
#[derive(Debug, Clone)]
pub struct UserConfig {
    pub first_name: Option<String>,
    pub last_name: Option<String>,
    pub email: Option<String>,
    pub matrix_id: Option<String>,
    pub roles: Vec<String>,
    pub enabled: bool,
}

/// Mathematical model of a user record.
pub struct UserModel {
    pub first_name: Option<Seq<char>>,
    pub last_name: Option<Seq<char>>,
    pub email: Option<Seq<char>>,
    pub matrix_id: Option<Seq<char>>,
    pub roles: Seq<Seq<char>>,
    pub enabled: bool,
}

pub open spec fn opt_view(o: Option<String>) -> Option<Seq<char>> {
    match o {
        Some(s) => Some(s@),
        None => None,
    }
}

impl View for UserConfig {
    type V = UserModel;

    open spec fn view(&self) -> UserModel {
        UserModel {
            first_name: opt_view(self.first_name),
            last_name: opt_view(self.last_name),
            email: opt_view(self.email),
            matrix_id: opt_view(self.matrix_id),
            roles: strings_view(self.roles@),
            enabled: self.enabled,
        }
    }
}

/// The desired users, keyed by identifier, in order of first appearance.
#[derive(Debug, Clone)]
pub struct DesiredState {
    pub entries: Vec<(String, UserConfig)>,
}

/// Model of one keyed user.
pub open spec fn user_entry_view(p: (String, UserConfig)) -> (Seq<char>, UserModel) {
    (p.0@, p.1@)
}

impl View for DesiredState {
    type V = Seq<(Seq<char>, UserModel)>;

    open spec fn view(&self) -> Seq<(Seq<char>, UserModel)> {
        self.entries@.map_values(|p: (String, UserConfig)| user_entry_view(p))
    }
}

/// No identifier occurs twice.
pub open spec fn keys_unique(s: Seq<(Seq<char>, UserModel)>) -> bool {
    forall|i: int, j: int| 0 <= i < s.len() && 0 <= j < s.len() && i != j ==> s[i].0 != s[j].0
}

/// Position of the entry at or after `i` whose identifier is `id`.
pub open spec fn entry_position(s: Seq<(Seq<char>, UserModel)>, id: Seq<char>, i: int) -> Option<int>
    decreases s.len() - i,
{
    if i < 0 || i >= s.len() {
        None
    } else if s[i].0 == id {
        Some(i)
    } else {
        entry_position(s, id, i + 1)
    }
}

/// Adds a user to a state: a new identifier is appended; for a known one the
/// roles are appended to the existing entry, whose other fields stay.
pub open spec fn merge_spec(s: Seq<(Seq<char>, UserModel)>, id: Seq<char>, u: UserModel) -> Seq<(Seq<char>, UserModel)> {
    match entry_position(s, id, 0) {
        Some(k) => s.update(k, (id, UserModel { roles: s[k].1.roles + u.roles, ..s[k].1 })),
        None => s.push((id, u)),
    }
}

/// The cell that a decoded row holds under a title: the last one with it.
pub open spec fn row_get(cells: Seq<(Seq<char>, CellModel)>, title: Seq<char>) -> Option<CellModel>
    decreases cells.len(),
{
    if cells.len() == 0 {
        None
    } else if cells.last().0 == title {
        Some(cells.last().1)
    } else {
        row_get(cells.drop_last(), title)
    }
}

/// The roles of a user whose group is `group` and whose functions are `fns`:
/// `"{group} - {function}"` for each function, then the group itself.
pub open spec fn derived_roles(group: Seq<char>, fns: Seq<Seq<char>>) -> Seq<Seq<char>> {
    fns.map_values(|f: Seq<char>| group + " - "@ + f).push(group)
}

/// The user that a decoded row stands for, with its identifier; `None` where
/// a required field is absent or has the wrong kind.
pub open spec fn user_from_row_spec(cells: Seq<(Seq<char>, CellModel)>) -> Option<(Seq<char>, UserModel)> {
    match (
        row_get(cells, "Funktionskennung"@),
        row_get(cells, "Vorname"@),
        row_get(cells, "Nachname"@),
        row_get(cells, "Funktion"@),
        row_get(cells, "Fachschaft"@),
    ) {
        (
            Some(CellModel::Str(id)),
            Some(CellModel::Str(first)),
            Some(CellModel::Str(last)),
            Some(CellModel::List(fns)),
            Some(CellModel::Str(group)),
        ) => Some(
            (
                id,
                UserModel {
                    first_name: Some(first),
                    last_name: Some(last),
                    email: Some(id + "@hhu.de"@),
                    matrix_id: None,
                    roles: derived_roles(group, fns),
                    enabled: true,
                },
            ),
        ),
        _ => None,
    }
}

/// The desired state that a sequence of decoded rows yields.
pub open spec fn extract_spec(rows: Seq<Seq<(Seq<char>, CellModel)>>) -> Seq<(Seq<char>, UserModel)>
    decreases rows.len(),
{
    if rows.len() == 0 {
        Seq::empty()
    } else {
        let prev = extract_spec(rows.drop_last());
        match user_from_row_spec(rows.last()) {
            Some(p) => merge_spec(prev, p.0, p.1),
            None => prev,
        }
    }
}

/// What `entry_position` finds, or that nothing there has the identifier.
pub proof fn lemma_entry_position(s: Seq<(Seq<char>, UserModel)>, id: Seq<char>, i: int)
    requires
        0 <= i,
    ensures
        match entry_position(s, id, i) {
            Some(k) => i <= k < s.len() && s[k].0 == id && forall|j: int| i <= j < k ==> s[j].0 != id,
            None => forall|j: int| i <= j < s.len() ==> s[j].0 != id,
        },
    decreases s.len() - i,
{
    if i < s.len() {
        lemma_entry_position(s, id, i + 1);
    }
}

/// Merging keeps identifiers unique.
pub proof fn lemma_merge_unique(s: Seq<(Seq<char>, UserModel)>, id: Seq<char>, u: UserModel)
    requires
        keys_unique(s),
    ensures
        keys_unique(merge_spec(s, id, u)),
{
    lemma_entry_position(s, id, 0);
}

/// Two rows with the same identifier, new to the state, become one user:
/// the first row's fields, with the roles of the first row followed by the
/// roles of the second.
pub proof fn identifier_merge(s: Seq<(Seq<char>, UserModel)>, id: Seq<char>, first: UserModel, second: UserModel)
    requires
        keys_unique(s),
        forall|i: int| 0 <= i < s.len() ==> s[i].0 != id,
    ensures
        ({
            let r = merge_spec(merge_spec(s, id, first), id, second);
            &&& r.len() == s.len() + 1
            &&& r.subrange(0, s.len() as int) == s
            &&& r.last() == (id, UserModel { roles: first.roles + second.roles, ..first })
        }),
{
    lemma_entry_position(s, id, 0);
    let once = merge_spec(s, id, first);
    assert(once == s.push((id, first)));
    lemma_entry_position(once, id, 0);
    assert(once[s.len() as int].0 == id);
    assert(entry_position(once, id, 0) == Some(s.len() as int));
    let r = merge_spec(once, id, second);
    assert(r.subrange(0, s.len() as int) =~= s);
}

impl DesiredState {
    pub open spec fn wf(&self) -> bool {
        keys_unique(self@)
    }

    /// The identifiers, in order.
    pub fn identifiers(&self) -> (r: Vec<String>)
        ensures
            r@.len() == self@.len(),
            forall|i: int| 0 <= i < r@.len() ==> (#[trigger] r@[i])@ == self@[i].0,
    {
        let mut out: Vec<String> = Vec::new();
        let mut i: usize = 0;
        while i < self.entries.len()
            invariant
                i <= self.entries.len(),
                out@.len() == i,
                forall|j: int| 0 <= j < i ==> (#[trigger] out@[j])@ == self@[j].0,
            decreases self.entries.len() - i,
        {
            out.push(self.entries[i].0.clone());
            i = i + 1;
        }
        out
    }

    /// An empty state.
    pub fn new() -> (r: Self)
        ensures
            r.wf(),
            r@ == Seq::<(Seq<char>, UserModel)>::empty(),
    {
        DesiredState { entries: Vec::new() }
    }

    /// Number of users.
    pub fn len(&self) -> (r: usize)
        ensures
            r == self@.len(),
    {
        self.entries.len()
    }

    /// Adds a user under an identifier, merging with an entry already there:
    /// its name and email stay, and the new roles are appended to its roles.
    pub fn insert_merge(&mut self, id: String, user: UserConfig)
        requires
            old(self).wf(),
        ensures
            final(self).wf(),
            final(self)@ == merge_spec(old(self)@, id@, user@),
    {
        proof {
            lemma_merge_unique(self@, id@, user@);
        }
        let mut i: usize = 0;
        while i < self.entries.len()
            invariant
                i <= self.entries.len(),
                self == old(self),
                keys_unique(self@),
                entry_position(self@, id@, 0) == entry_position(self@, id@, i as int),
            decreases self.entries.len() - i,
        {
            if self.entries[i].0 == id {
                let ghost s = self@;
                let ghost u = user@;
                assert(entry_position(s, id@, i as int) == Some(i as int));
                let mut e = self.entries.remove(i);
                let ghost old_roles = e.1.roles@;
                let mut more = user.roles;
                e.1.roles.append(&mut more);
                assert(strings_view(e.1.roles@) =~= strings_view(old_roles) + u.roles);
                self.entries.insert(i, e);
                assert(self@ =~= merge_spec(s, id@, u));
                proof {
                    lemma_merge_unique(s, id@, u);
                }
                return;
            }
            i = i + 1;
        }
        let ghost s = self@;
        self.entries.push((id, user));
        assert(self@ =~= merge_spec(s, id@, user@));
    }
}

/// Looks up the cell under a title: the last one with that title.
pub fn row_lookup<'a>(row: &'a DecodedRow, title: &str) -> (r: Option<&'a NextcloudTableCell>)
    ensures
        match r {
            Some(c) => row_get(row@, title@) == Some(c@),
            None => row_get(row@, title@) is None,
        },
{
    let t = title.to_owned();
    let mut i: usize = row.cells.len();
    assert(row.cells@.subrange(0, i as int) =~= row.cells@);
    while i > 0
        invariant
            i <= row.cells.len(),
            t@ == title@,
            row_get(row@, title@) == row_get(cells_view(row.cells@.subrange(0, i as int)), title@),
        decreases i,
    {
        let ghost pre = cells_view(row.cells@.subrange(0, i as int));
        assert(pre.drop_last() =~= cells_view(row.cells@.subrange(0, i as int - 1)));
        assert(pre.last() == entry_view(row.cells@[i - 1]));
        if row.cells[i - 1].0 == t {
            return Some(&row.cells[i - 1].1);
        }
        i = i - 1;
    }
    None
}

/// The roles of a user of a group with the given functions.
fn derive_roles(group: &String, fns: &Vec<String>) -> (r: Vec<String>)
    ensures
        strings_view(r@) == derived_roles(group@, strings_view(fns@)),
{
    let mut out: Vec<String> = Vec::new();
    let mut i: usize = 0;
    while i < fns.len()
        invariant
            i <= fns.len(),
            out@.len() == i,
            forall|j: int| 0 <= j < i ==> (#[trigger] out@[j])@ == group@ + " - "@ + fns@[j]@,
        decreases fns.len() - i,
    {
        let role = group.clone().concat(" - ").concat(fns[i].as_str());
        out.push(role);
        i = i + 1;
    }
    out.push(group.clone());
    assert(strings_view(out@) =~= derived_roles(group@, strings_view(fns@)));
    out
}

/// The user that a decoded row stands for, with its identifier, or `None`
/// where a required field is absent or has the wrong kind.
pub fn user_from_row(row: &DecodedRow) -> (r: Option<(String, UserConfig)>)
    ensures
        match r {
            Some(p) => user_from_row_spec(row@) == Some(user_entry_view(p)),
            None => user_from_row_spec(row@) is None,
        },
{
    let id = match row_lookup(row, "Funktionskennung") {
        Some(NextcloudTableCell::String(s)) => s,
        _ => return None,
    };
    let first = match row_lookup(row, "Vorname") {
        Some(NextcloudTableCell::String(s)) => s,
        _ => return None,
    };
    let last = match row_lookup(row, "Nachname") {
        Some(NextcloudTableCell::String(s)) => s,
        _ => return None,
    };
    let fns = match row_lookup(row, "Funktion") {
        Some(NextcloudTableCell::List(l)) => l,
        _ => return None,
    };
    let group = match row_lookup(row, "Fachschaft") {
        Some(NextcloudTableCell::String(s)) => s,
        _ => return None,
    };
    let email = id.clone().concat("@hhu.de");
    let user = UserConfig {
        first_name: Some(first.clone()),
        last_name: Some(last.clone()),
        email: Some(email),
        matrix_id: None,
        roles: derive_roles(group, fns),
        enabled: true,
    };
    Some((id.clone(), user))
}

/// Builds the desired state from decoded rows: rows that do not describe a
/// user are dropped, and rows with the same identifier are merged.
pub fn user_configs_from_rows(rows: &Vec<DecodedRow>) -> (r: DesiredState)
    ensures
        r.wf(),
        r@ == extract_spec(rows@.map_values(|d: DecodedRow| d@)),
{
    let mut state = DesiredState::new();
    let mut i: usize = 0;
    while i < rows.len()
        invariant
            i <= rows.len(),
            state.wf(),
            state@ == extract_spec(rows@.map_values(|d: DecodedRow| d@).subrange(0, i as int)),
        decreases rows.len() - i,
    {
        let ghost all = rows@.map_values(|d: DecodedRow| d@);
        assert(all.subrange(0, i as int + 1).drop_last() =~= all.subrange(0, i as int));
        assert(all.subrange(0, i as int + 1).last() == rows[i as int]@);
        match user_from_row(&rows[i]) {
            Some(p) => {
                state.insert_merge(p.0, p.1);
            },
            None => {},
        }
        i = i + 1;
    }
    assert(rows@.map_values(|d: DecodedRow| d@).subrange(0, rows.len() as int) =~= rows@.map_values(
        |d: DecodedRow| d@,
    ));
    state
}

/// The model of the rows that a table decodes to.
pub open spec fn decoded_rows_spec(columns: Seq<Column>, scheme: SchemeResponse) -> Seq<Seq<(Seq<char>, CellModel)>> {
    columns.map_values(|c: Column| decode_row_spec(scheme.data.columns@, c.data@))
}

/// Decodes a table's raw rows against its schema and builds the desired
/// users from them.
pub fn get_user_configs(columns: Vec<Column>, scheme: SchemeResponse) -> (r: DesiredState)
    ensures
        r.wf(),
        r@ == extract_spec(decoded_rows_spec(columns@, scheme)),
{
    let ghost cols = columns@;
    let ghost sch = scheme;
    let rows = parse_nextcloud_table(columns, scheme);
    assert(rows@.map_values(|d: DecodedRow| d@) =~= decoded_rows_spec(cols, sch));
    user_configs_from_rows(&rows)
}

} // verus!
