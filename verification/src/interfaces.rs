//! The Interfaces pane's logic: which interfaces a new one may use, what the create
//! button sends, and what an export's chip says.

use vstd::prelude::*;
use crate::reports::strs;
use crate::text::{chars_of, str_eq, string_of, trim, trimmed};

verus! {

/// How an interface exports a value: written out, looked up, or as a map of all of a
/// type.
#[derive(Debug, Clone, Copy, PartialEq, Eq, Structural)]
pub enum ExportHow {
    Static,
    Lookup,
    /// an `all` map
    Keyed,
}

/// The word satz writes for how a value is exported.
pub open spec fn how_word(h: ExportHow) -> &'static str {
    match h {
        ExportHow::Static => "static",
        ExportHow::Lookup => "lookup",
        ExportHow::Keyed => "map",
    }
}

impl ExportHow {
    /// The word satz writes for it.
    pub fn as_str(self) -> (r: &'static str)
        ensures
            r == how_word(self),
            r == match self {
                ExportHow::Static => "static",
                ExportHow::Lookup => "lookup",
                ExportHow::Keyed => "map",
            },
    {
        match self {
            ExportHow::Static => "static",
            ExportHow::Lookup => "lookup",
            ExportHow::Keyed => "map",
        }
    }
}

/// One declared interface.
#[derive(Debug, Clone, PartialEq, Eq)]
pub struct InterfaceRow {
    pub name: String,
}

/// One export: the interface that declares it, its name, how it is exported, and the
/// type of an `all` map.
#[derive(Debug, Clone, PartialEq, Eq)]
pub struct ExportRow {
    pub interface: Option<String>,
    pub name: String,
    pub how: ExportHow,
    pub all: Option<String>,
}

impl ExportRow {
    /// The export as `interface.name`, where an interface declares it.
    pub fn qualified(&self) -> (r: Option<String>)
        ensures
            r matches Some(q) ==> self.interface matches Some(i) && q@ == i@ + "."@ + self.name@,
            r is None <==> self.interface is None,
    {
        match &self.interface {
            Some(i) => {
                let mut q = i.clone();
                q.append(".");
                q.append(self.name.as_str());
                Some(q)
            },
            None => None,
        }
    }
}

/// `satz_interfaces`: the declared interfaces and their exports.
#[derive(Debug, Clone, PartialEq, Eq)]
pub struct InterfacesReport {
    pub interfaces: Vec<InterfaceRow>,
    pub exports: Vec<ExportRow>,
}

pub open spec fn iface_views(v: Seq<&InterfaceRow>) -> Seq<Seq<char>> {
    Seq::new(v.len(), |i: int| v[i].name@)
}

/// The names of `rows` other than `name`, in the report's order.
pub open spec fn other_names(rows: Seq<InterfaceRow>, name: Seq<char>) -> Seq<Seq<char>>
    decreases rows.len(),
{
    if rows.len() == 0 {
        seq![]
    } else {
        let r = other_names(rows.drop_last(), name);
        if rows.last().name@ != name {
            r.push(rows.last().name@)
        } else {
            r
        }
    }
}

/// The interfaces a new one named `name` may use: every declared one but itself.
pub fn usable<'a>(report: &'a InterfacesReport, name: &str) -> (r: Vec<&'a InterfaceRow>)
    ensures
        iface_views(r@) == other_names(report.interfaces@, trim(name@)),
{
    let cs = chars_of(name);
    let t = trimmed(cs.as_slice());
    let own = string_of(t.as_slice());
    let mut out: Vec<&'a InterfaceRow> = Vec::new();
    for i in 0..report.interfaces.len()
        invariant
            own@ == trim(name@),
            iface_views(out@) == other_names(report.interfaces@.take(i as int), own@),
    {
        let row = &report.interfaces[i];
        assert(report.interfaces@.take(i + 1).drop_last() =~= report.interfaces@.take(i as int));
        assert(report.interfaces@.take(i + 1).last() == *row);
        if !str_eq(row.name.as_str(), own.as_str()) {
            let ghost before = iface_views(out@);
            out.push(row);
            assert(iface_views(out@) =~= before.push(row.name@));
        }
    }
    assert(report.interfaces@.take(report.interfaces.len() as int) =~= report.interfaces@);
    out
}

/// The rows behind references, as values.
pub open spec fn derefs<T>(v: Seq<&T>) -> Seq<T> {
    Seq::new(v.len(), |i: int| *v[i])
}

/// The exports that the interface named `name` declares, in the report's order.
pub open spec fn declared_by(exports: Seq<ExportRow>, name: Seq<char>) -> Seq<ExportRow>
    decreases exports.len(),
{
    if exports.len() == 0 {
        seq![]
    } else {
        let r = declared_by(exports.drop_last(), name);
        if exports.last().interface matches Some(n) && n@ == name {
            r.push(exports.last())
        } else {
            r
        }
    }
}

impl InterfacesReport {
    /// The exports that the interface named `name` declares, in the report's order.
    pub fn of<'a>(&'a self, name: &str) -> (r: Vec<&'a ExportRow>)
        ensures
            derefs(r@) == declared_by(self.exports@, name@),
    {
        let mut out: Vec<&'a ExportRow> = Vec::new();
        for i in 0..self.exports.len()
            invariant
                derefs(out@) == declared_by(self.exports@.take(i as int), name@),
        {
            let row = &self.exports[i];
            assert(self.exports@.take(i + 1).drop_last() =~= self.exports@.take(i as int));
            assert(self.exports@.take(i + 1).last() == *row);
            let mine = match &row.interface {
                Some(n) => str_eq(n.as_str(), name),
                None => false,
            };
            if mine {
                let ghost before = derefs(out@);
                out.push(row);
                assert(derefs(out@) =~= before.push(*row));
            }
        }
        assert(self.exports@.take(self.exports.len() as int) =~= self.exports@);
        out
    }
}

/// What a new interface named `name` may carry again, grouped by the interface that
/// declares it: each interface but itself that declares an export, with those exports,
/// in the report's order.
pub open spec fn carriable_spec(
    rows: Seq<InterfaceRow>,
    exports: Seq<ExportRow>,
    name: Seq<char>,
) -> Seq<(Seq<char>, Seq<ExportRow>)>
    decreases rows.len(),
{
    if rows.len() == 0 {
        seq![]
    } else {
        let r = carriable_spec(rows.drop_last(), exports, name);
        let own = rows.last().name@;
        if own != name && declared_by(exports, own).len() > 0 {
            r.push((own, declared_by(exports, own)))
        } else {
            r
        }
    }
}

/// The groups as names and exports.
pub open spec fn groups_view(v: Seq<(&InterfaceRow, Vec<&ExportRow>)>) -> Seq<
    (Seq<char>, Seq<ExportRow>),
> {
    Seq::new(v.len(), |i: int| (v[i].0.name@, derefs(v[i].1@)))
}

/// The exports the new interface may carry again, grouped by the interface that
/// declares them in the report's order: the non-core ones, since every interface
/// carries the core exports already and satz refuses to copy one.
pub fn carriable<'a>(report: &'a InterfacesReport, name: &str) -> (r: Vec<
    (&'a InterfaceRow, Vec<&'a ExportRow>),
>)
    ensures
        groups_view(r@) == carriable_spec(report.interfaces@, report.exports@, trim(name@)),
{
    let cs = chars_of(name);
    let t = trimmed(cs.as_slice());
    let own = string_of(t.as_slice());
    let mut out: Vec<(&'a InterfaceRow, Vec<&'a ExportRow>)> = Vec::new();
    for i in 0..report.interfaces.len()
        invariant
            own@ == trim(name@),
            groups_view(out@) == carriable_spec(
                report.interfaces@.take(i as int),
                report.exports@,
                own@,
            ),
    {
        let row = &report.interfaces[i];
        assert(report.interfaces@.take(i + 1).drop_last() =~= report.interfaces@.take(i as int));
        assert(report.interfaces@.take(i + 1).last() == *row);
        if !str_eq(row.name.as_str(), own.as_str()) {
            let rows = report.of(row.name.as_str());
            if rows.len() > 0 {
                let ghost before = groups_view(out@);
                let ghost rv = derefs(rows@);
                out.push((row, rows));
                assert(groups_view(out@) =~= before.push((row.name@, rv)));
            }
        }
    }
    assert(report.interfaces@.take(report.interfaces.len() as int) =~= report.interfaces@);
    out
}

/// The icon of an export's `how` chip.
pub fn how_icon(how: ExportHow) -> (r: &'static str)
    ensures
        r == match how {
            ExportHow::Static => "text_fields",
            ExportHow::Lookup => "search",
            ExportHow::Keyed => "data_object",
        },
{
    match how {
        ExportHow::Static => "text_fields",
        ExportHow::Lookup => "search",
        ExportHow::Keyed => "data_object",
    }
}

/// The label of an export's `how` chip: the word satz writes, and the type of an `all`
/// map.
pub fn how_label(row: &ExportRow) -> (r: String)
    ensures
        r@ == match row.all {
            Some(t) => how_word(row.how)@ + " · "@ + t@,
            None => how_word(row.how)@,
        },
{
    let mut s = String::from_str(row.how.as_str());
    match &row.all {
        Some(t) => {
            s.append(" · ");
            s.append(t.as_str());
        },
        None => {},
    }
    s
}

/// The new-interface form as the operator fills it in.
#[derive(Debug, Clone, PartialEq, Eq)]
pub struct Draft {
    pub name: String,
    pub owner_group: String,
    pub interface_only: bool,
    pub uses: Vec<String>,
    pub exports: Vec<String>,
}

impl Default for Draft {
    fn default() -> (r: Draft)
        ensures
            r.name@ == Seq::<char>::empty(),
            r.owner_group@ == Seq::<char>::empty(),
            !r.interface_only,
            r.uses@.len() == 0,
            r.exports@.len() == 0,
    {
        Draft {
            name: String::new(),
            owner_group: String::new(),
            interface_only: false,
            uses: Vec::new(),
            exports: Vec::new(),
        }
    }
}

/// What the create button sends satz: the name, the owner group, whether the new one is
/// an interface only, the interfaces it uses and the exports it carries again.
#[derive(Debug, Clone, PartialEq, Eq)]
pub struct AddProjectArgs {
    pub name: String,
    pub owner_group: Option<String>,
    pub interface_only: bool,
    pub uses: Vec<String>,
    pub exports: Vec<String>,
}


/// The strings of `v` other than `x`, in order.
pub open spec fn without(v: Seq<Seq<char>>, x: Seq<char>) -> Seq<Seq<char>>
    decreases v.len(),
{
    if v.len() == 0 {
        seq![]
    } else {
        let r = without(v.drop_last(), x);
        if v.last() != x {
            r.push(v.last())
        } else {
            r
        }
    }
}

/// The strings of `v` that do not start with `prefix`, in order.
pub open spec fn not_under(v: Seq<Seq<char>>, prefix: Seq<char>) -> Seq<Seq<char>>
    decreases v.len(),
{
    if v.len() == 0 {
        seq![]
    } else {
        let r = not_under(v.drop_last(), prefix);
        if !prefix.is_prefix_of(v.last()) {
            r.push(v.last())
        } else {
            r
        }
    }
}

fn starts_with(s: &str, prefix: &Vec<char>) -> (r: bool)
    ensures
        r == prefix@.is_prefix_of(s@),
{
    let cs = chars_of(s);
    if prefix.len() > cs.len() {
        return false;
    }
    for i in 0..prefix.len()
        invariant
            prefix.len() <= cs.len(),
            cs@ == s@,
            forall|k: int| 0 <= k < i ==> prefix@[k] == cs@[k],
    {
        if prefix[i] != cs[i] {
            return false;
        }
    }
    assert(prefix@ =~= s@.subrange(0, prefix@.len() as int));
    true
}

impl Draft {
    /// The arguments the Create button sends: the owner group only for a project — one
    /// left blank is none — and only the picks the chosen name still allows: an interface
    /// cannot use itself, nor carry its own exports.
    pub fn args(&self) -> (r: AddProjectArgs)
        ensures
            r.name@ == trim(self.name@),
            r.interface_only == self.interface_only,
            match r.owner_group {
                Some(g) => !self.interface_only && g@ == trim(self.owner_group@) && g@.len() > 0,
                None => self.interface_only || trim(self.owner_group@).len() == 0,
            },
            strs(r.uses@) == without(strs(self.uses@), trim(self.name@)),
            strs(r.exports@) == not_under(strs(self.exports@), trim(self.name@) + "."@),
    {
        let name_cs = chars_of(self.name.as_str());
        let name_t = trimmed(name_cs.as_slice());
        let name = string_of(name_t.as_slice());
        let group_cs = chars_of(self.owner_group.as_str());
        let group_t = trimmed(group_cs.as_slice());
        let owner_group = if !self.interface_only && group_t.len() > 0 {
            Some(string_of(group_t.as_slice()))
        } else {
            None
        };
        let mut uses: Vec<String> = Vec::new();
        for i in 0..self.uses.len()
            invariant
                name@ == trim(self.name@),
                strs(uses@) == without(strs(self.uses@).take(i as int), name@),
        {
            assert(strs(self.uses@).take(i + 1).drop_last() =~= strs(self.uses@).take(i as int));
            assert(strs(self.uses@).take(i + 1).last() == self.uses@[i as int]@);
            if !str_eq(self.uses[i].as_str(), name.as_str()) {
                let ghost before = strs(uses@);
                uses.push(self.uses[i].clone());
                assert(strs(uses@) =~= before.push(self.uses@[i as int]@));
            }
        }
        assert(strs(self.uses@).take(self.uses.len() as int) =~= strs(self.uses@));
        let mut prefix = name_t.clone();
        prefix.push('.');
        assert(prefix@ =~= name@ + "."@) by {
            reveal_strlit(".");
        }
        let mut exports: Vec<String> = Vec::new();
        for i in 0..self.exports.len()
            invariant
                prefix@ == name@ + "."@,
                name@ == trim(self.name@),
                strs(exports@) == not_under(strs(self.exports@).take(i as int), prefix@),
        {
            assert(strs(self.exports@).take(i + 1).drop_last() =~= strs(self.exports@).take(
                i as int,
            ));
            assert(strs(self.exports@).take(i + 1).last() == self.exports@[i as int]@);
            if !starts_with(self.exports[i].as_str(), &prefix) {
                let ghost before = strs(exports@);
                exports.push(self.exports[i].clone());
                assert(strs(exports@) =~= before.push(self.exports@[i as int]@));
            }
        }
        assert(strs(self.exports@).take(self.exports.len() as int) =~= strs(self.exports@));
        AddProjectArgs { name, owner_group, interface_only: self.interface_only, uses, exports }
    }
}

} // verus!
