//! Paths as the system divides them.
//!
//! The caller divides a path into its parts; everything here is decided on the parts.
pub mod laws;

use crate::text::{
    before, begins, joined, less, less_irreflexive, less_total, less_transitive, lower, lowered, lowercase, lowercased, push, same,
    starts_with, texts,
};
use vstd::prelude::*;

verus! {

/// The volume at the front of a path.
pub enum Volume {
    Disk(char),
    Share(String, String),
    Other(String),
}

/// One part of a path.
pub enum Part {
    /// A volume; `verbatim` if it was written with the extended prefix.
    Volume { verbatim: bool, volume: Volume },
    Root,
    Current,
    Parent,
    Name(String),
}

pub enum VolumeView {
    Disk(char),
    Share(Seq<char>, Seq<char>),
    Other(Seq<char>),
}

pub enum PartView {
    Volume { verbatim: bool, volume: VolumeView },
    Root,
    Current,
    Parent,
    Name(Seq<char>),
}

impl View for Volume {
    type V = VolumeView;

    open spec fn view(&self) -> VolumeView {
        match self {
            Volume::Disk(c) => VolumeView::Disk(*c),
            Volume::Share(a, b) => VolumeView::Share(a@, b@),
            Volume::Other(t) => VolumeView::Other(t@),
        }
    }
}

impl View for Part {
    type V = PartView;

    open spec fn view(&self) -> PartView {
        match self {
            Part::Volume { verbatim, volume } => PartView::Volume { verbatim: *verbatim, volume: volume@ },
            Part::Root => PartView::Root,
            Part::Current => PartView::Current,
            Part::Parent => PartView::Parent,
            Part::Name(n) => PartView::Name(n@),
        }
    }
}

pub open spec fn parts_of(list: Seq<Part>) -> Seq<PartView> {
    list.map_values(|p: Part| p@)
}

/// A path: its text and its parts.
pub struct Location {
    pub text: String,
    pub parts: Vec<Part>,
}

pub struct LocationView {
    pub text: Seq<char>,
    pub parts: Seq<PartView>,
}

impl View for Location {
    type V = LocationView;

    open spec fn view(&self) -> LocationView {
        LocationView { text: self.text@, parts: parts_of(self.parts@) }
    }
}

pub open spec fn locations_of(list: Seq<Location>) -> Seq<LocationView> {
    list.map_values(|l: Location| l@)
}

impl Clone for Volume {
    fn clone(&self) -> (r: Self)
        ensures
            r@ == self@,
    {
        match self {
            Volume::Disk(c) => Volume::Disk(*c),
            Volume::Share(a, b) => Volume::Share(a.clone(), b.clone()),
            Volume::Other(t) => Volume::Other(t.clone()),
        }
    }
}

impl Clone for Part {
    fn clone(&self) -> (r: Self)
        ensures
            r@ == self@,
    {
        match self {
            Part::Volume { verbatim, volume } => Part::Volume { verbatim: *verbatim, volume: volume.clone() },
            Part::Root => Part::Root,
            Part::Current => Part::Current,
            Part::Parent => Part::Parent,
            Part::Name(n) => Part::Name(n.clone()),
        }
    }
}

impl Clone for Location {
    fn clone(&self) -> (r: Self)
        ensures
            r@ == self@,
    {
        let mut parts: Vec<Part> = Vec::new();
        let mut i: usize = 0;
        while i < self.parts.len()
            invariant
                i <= self.parts.len(),
                parts.len() == i,
                forall|j: int| 0 <= j < i ==> (#[trigger] parts@[j])@ == self.parts@[j]@,
            decreases self.parts.len() - i,
        {
            parts.push(self.parts[i].clone());
            i = i + 1;
        }
        assert(parts_of(parts@) =~= parts_of(self.parts@));
        Location { text: self.text.clone(), parts }
    }
}

pub fn copied_locations(list: &Vec<Location>) -> (r: Vec<Location>)
    ensures
        locations_of(r@) == locations_of(list@),
{
    let mut r: Vec<Location> = Vec::new();
    let mut i: usize = 0;
    while i < list.len()
        invariant
            i <= list.len(),
            r.len() == i,
            forall|j: int| 0 <= j < i ==> (#[trigger] r@[j])@ == list@[j]@,
        decreases list.len() - i,
    {
        r.push(list[i].clone());
        i = i + 1;
    }
    assert(locations_of(r@) =~= locations_of(list@));
    r
}

impl Part {
    pub fn equals(&self, other: &Part) -> (r: bool)
        ensures
            r == (self@ == other@),
    {
        match (self, other) {
            (Part::Volume { verbatim: a, volume: x }, Part::Volume { verbatim: b, volume: y }) => *a == *b && match (x, y) {
                (Volume::Disk(c), Volume::Disk(d)) => *c == *d,
                (Volume::Share(s, t), Volume::Share(u, v)) => same(s, u) && same(t, v),
                (Volume::Other(s), Volume::Other(t)) => same(s, t),
                _ => false,
            },
            (Part::Root, Part::Root) => true,
            (Part::Current, Part::Current) => true,
            (Part::Parent, Part::Parent) => true,
            (Part::Name(a), Part::Name(b)) => same(a, b),
            _ => false,
        }
    }
}

/// Whether a path lies under another, part by part.
pub open spec fn is_under(path: Seq<PartView>, root: Seq<PartView>) -> bool {
    root.len() <= path.len() && path.subrange(0, root.len() as int) == root
}

/// Whether a path lies under another; `path` and `root` are divided the same way.
pub fn under(path: &Vec<Part>, root: &Vec<Part>) -> (r: bool)
    ensures
        r == is_under(parts_of(path@), parts_of(root@)),
{
    if root.len() > path.len() {
        return false;
    }
    let ghost p = parts_of(path@);
    let ghost q = parts_of(root@);
    let mut i: usize = 0;
    while i < root.len()
        invariant
            i <= root.len() <= path.len(),
            p == parts_of(path@),
            q == parts_of(root@),
            forall|j: int| 0 <= j < i ==> p[j] == q[j],
        decreases root.len() - i,
    {
        if !path[i].equals(&root[i]) {
            assert(p.subrange(0, q.len() as int)[i as int] != q[i as int]);
            return false;
        }
        i = i + 1;
    }
    assert(p.subrange(0, q.len() as int) =~= q);
    true
}

impl Location {
    /// The same path, whatever its text.
    pub fn equals(&self, other: &Location) -> (r: bool)
        ensures
            r == (self@.parts == other@.parts),
    {
        if self.parts.len() != other.parts.len() {
            assert(self@.parts.len() != other@.parts.len());
            return false;
        }
        let r = under(&self.parts, &other.parts);
        assert(self@.parts.subrange(0, other@.parts.len() as int) =~= self@.parts);
        r
    }
}

pub open spec fn under_any(path: Seq<PartView>, roots: Seq<LocationView>) -> bool {
    exists|i: int| 0 <= i < roots.len() && is_under(path, (#[trigger] roots[i]).parts)
}

/// Whether a path lies under one of several roots.
pub fn under_one(path: &Vec<Part>, roots: &Vec<Location>) -> (r: bool)
    ensures
        r == under_any(parts_of(path@), locations_of(roots@)),
{
    let ghost all = locations_of(roots@);
    let mut i: usize = 0;
    while i < roots.len()
        invariant
            i <= roots.len(),
            all == locations_of(roots@),
            forall|j: int| 0 <= j < i ==> !is_under(parts_of(path@), (#[trigger] all[j]).parts),
        decreases roots.len() - i,
    {
        let hit = under(path, &roots[i].parts);
        assert(all[i as int].parts == parts_of(roots@[i as int].parts@));
        if hit {
            return true;
        }
        i = i + 1;
    }
    false
}

// The order of paths.

/// A part as its rank and two texts, compared in that order.
pub open spec fn part_key(p: PartView) -> (int, Seq<char>, Seq<char>) {
    match p {
        PartView::Volume { verbatim, volume } => match volume {
            VolumeView::Other(t) => (if verbatim { 0int } else { 3 }, t, Seq::empty()),
            VolumeView::Share(a, b) => (if verbatim { 1int } else { 4 }, a, b),
            VolumeView::Disk(c) => (if verbatim { 2int } else { 5 }, seq![c], Seq::empty()),
        },
        PartView::Root => (6, Seq::empty(), Seq::empty()),
        PartView::Current => (7, Seq::empty(), Seq::empty()),
        PartView::Parent => (8, Seq::empty(), Seq::empty()),
        PartView::Name(n) => (9, n, Seq::empty()),
    }
}

pub open spec fn key_less(a: (int, Seq<char>, Seq<char>), b: (int, Seq<char>, Seq<char>)) -> bool {
    a.0 < b.0 || (a.0 == b.0 && (less(a.1, b.1) || (a.1 == b.1 && less(a.2, b.2))))
}

pub open spec fn part_less(a: PartView, b: PartView) -> bool {
    key_less(part_key(a), part_key(b))
}

/// The order of paths: at the first part where they differ.
pub open spec fn path_less(a: Seq<PartView>, b: Seq<PartView>) -> bool
    decreases a.len(),
{
    if b.len() == 0 {
        false
    } else if a.len() == 0 {
        true
    } else if part_key(a[0]) == part_key(b[0]) {
        path_less(a.drop_first(), b.drop_first())
    } else {
        part_less(a[0], b[0])
    }
}

fn key_of(p: &Part) -> (r: (u8, String, String))
    ensures
        part_key(p@) == (r.0 as int, r.1@, r.2@),
{
    match p {
        Part::Volume { verbatim, volume } => match volume {
            Volume::Other(t) => {
                let r: (u8, String, String) = (if *verbatim { 0 } else { 3 }, t.clone(), String::new());
                assert(r.2@ =~= Seq::<char>::empty());
                r
            },
            Volume::Share(a, b) => {
                let rank: u8 = if *verbatim { 1 } else { 4 };
                (rank, a.clone(), b.clone())
            },
            Volume::Disk(c) => {
                let mut t = String::new();
                push(&mut t, *c);
                assert(t@ =~= seq![*c]);
                let rank: u8 = if *verbatim { 2 } else { 5 };
                let e = String::new();
                assert(e@ =~= Seq::<char>::empty());
                (rank, t, e)
            },
        },
        Part::Root => {
            let r: (u8, String, String) = (6, String::new(), String::new());
            assert(r.1@ =~= Seq::<char>::empty());
            assert(r.2@ =~= Seq::<char>::empty());
            r
        },
        Part::Current => {
            let r: (u8, String, String) = (7, String::new(), String::new());
            assert(r.1@ =~= Seq::<char>::empty());
            assert(r.2@ =~= Seq::<char>::empty());
            r
        },
        Part::Parent => {
            let r: (u8, String, String) = (8, String::new(), String::new());
            assert(r.1@ =~= Seq::<char>::empty());
            assert(r.2@ =~= Seq::<char>::empty());
            r
        },
        Part::Name(n) => {
            let r: (u8, String, String) = (9, n.clone(), String::new());
            assert(r.2@ =~= Seq::<char>::empty());
            r
        },
    }
}

/// Whether one path comes before another.
pub fn path_before(a: &Vec<Part>, b: &Vec<Part>) -> (r: bool)
    ensures
        r == path_less(parts_of(a@), parts_of(b@)),
{
    let ghost p = parts_of(a@);
    let ghost q = parts_of(b@);
    let mut i: usize = 0;
    assert(p.subrange(0, p.len() as int) =~= p);
    assert(q.subrange(0, q.len() as int) =~= q);
    while i < a.len() && i < b.len()
        invariant
            i <= a.len(),
            i <= b.len(),
            p == parts_of(a@),
            q == parts_of(b@),
            path_less(p, q) == path_less(p.subrange(i as int, p.len() as int), q.subrange(i as int, q.len() as int)),
        decreases a.len() - i,
    {
        let x = key_of(&a[i]);
        let y = key_of(&b[i]);
        proof {
            let s = p.subrange(i as int, p.len() as int);
            let t = q.subrange(i as int, q.len() as int);
            assert(s[0] == a@[i as int]@);
            assert(t[0] == b@[i as int]@);
            assert(s.drop_first() =~= p.subrange(i + 1, p.len() as int));
            assert(t.drop_first() =~= q.subrange(i + 1, q.len() as int));
        }
        if x.0 != y.0 {
            return x.0 < y.0;
        }
        if !same(&x.1, &y.1) {
            proof {
                if less(x.1@, y.1@) == false {
                    less_total(x.1@, y.1@);
                }
            }
            return before(&x.1, &y.1);
        }
        if !same(&x.2, &y.2) {
            proof {
                less_irreflexive(x.1@);
            }
            return before(&x.2, &y.2);
        }
        i = i + 1;
    }
    i < b.len()
}

/// The list with a path in its place, unless the same path is there.
pub open spec fn placed(list: Seq<LocationView>, item: LocationView) -> Seq<LocationView>
    decreases list.len(),
{
    if list.len() == 0 {
        seq![item]
    } else if list.last().parts == item.parts {
        list
    } else if path_less(list.last().parts, item.parts) {
        list.push(item)
    } else {
        placed(list.drop_last(), item).push(list.last())
    }
}

/// The paths in order, each once: the first of equal ones stays.
pub open spec fn ordered(list: Seq<LocationView>) -> Seq<LocationView>
    decreases list.len(),
{
    if list.len() == 0 { list } else { placed(ordered(list.drop_last()), list.last()) }
}

fn place(list: &mut Vec<Location>, item: Location)
    ensures
        locations_of(final(list)@) == placed(locations_of(old(list)@), item@),
{
    let ghost all = locations_of(list@);
    let ghost v = item@;
    let mut tail: Vec<Location> = Vec::new();
    let mut found = false;
    let mut done = false;
    assert(locations_of(tail@).reverse() =~= Seq::<LocationView>::empty());
    while !done && list.len() > 0
        invariant
            v == item@,
            !done ==> placed(all, v) == placed(locations_of(list@), v) + locations_of(tail@).reverse(),
            done ==> (if found {
                placed(all, v) == locations_of(list@) + locations_of(tail@).reverse()
            } else {
                placed(all, v) == locations_of(list@).push(v) + locations_of(tail@).reverse()
            }),
            !done ==> !found,
        decreases (if done { 0int } else { 1int }), list.len(),
    {
        let last: usize = list.len() - 1;
        let ghost now = locations_of(list@);
        assert(now.last() == list@[last as int]@);
        assert(now.drop_last() =~= locations_of(list@.drop_last()));
        if list[last].equals(&item) {
            found = true;
            done = true;
        } else if path_before(&list[last].parts, &item.parts) {
            done = true;
        } else {
            let popped = list.pop();
            if let Some(x) = popped {
                let ghost held = locations_of(tail@);
                tail.push(x);
                assert(locations_of(tail@) =~= held.push(x@));
                assert(held.push(x@).reverse() =~= seq![x@] + held.reverse());
                assert(placed(now, v) + held.reverse() =~= placed(now.drop_last(), v) + (seq![x@] + held.reverse()));
            }
        }
    }
    proof {
        if !done {
            assert(locations_of(list@) =~= Seq::<LocationView>::empty());
            assert(placed(locations_of(list@), v) =~= locations_of(list@).push(v));
        }
    }
    if !found {
        let ghost was = locations_of(list@);
        list.push(item);
        assert(locations_of(list@) =~= was.push(v));
    }
    while tail.len() > 0
        invariant
            placed(all, v) == locations_of(list@) + locations_of(tail@).reverse(),
        decreases tail.len(),
    {
        let ghost held = locations_of(tail@);
        let ghost now = locations_of(list@);
        let popped = tail.pop();
        if let Some(x) = popped {
            assert(held =~= locations_of(tail@).push(x@));
            assert(held.reverse() =~= seq![x@] + locations_of(tail@).reverse());
            list.push(x);
            assert(locations_of(list@) =~= now.push(x@));
            assert(now + held.reverse() =~= now.push(x@) + locations_of(tail@).reverse());
        }
    }
    assert(locations_of(tail@).reverse() =~= Seq::<LocationView>::empty());
    assert(placed(all, v) =~= locations_of(list@));
}

/// The paths in order, each once.
pub fn sort_unique(list: &Vec<Location>) -> (r: Vec<Location>)
    ensures
        locations_of(r@) == ordered(locations_of(list@)),
{
    let ghost all = locations_of(list@);
    let mut r: Vec<Location> = Vec::new();
    let mut i: usize = 0;
    assert(all.subrange(0, 0) =~= Seq::<LocationView>::empty());
    assert(locations_of(r@) =~= ordered(all.subrange(0, 0)));
    while i < list.len()
        invariant
            i <= list.len(),
            all == locations_of(list@),
            locations_of(r@) == ordered(all.subrange(0, i as int)),
        decreases list.len() - i,
    {
        proof {
            assert(all.subrange(0, i + 1).drop_last() =~= all.subrange(0, i as int));
            assert(all.subrange(0, i + 1).last() == all[i as int]);
        }
        place(&mut r, list[i].clone());
        i = i + 1;
    }
    assert(all.subrange(0, i as int) =~= all);
    r
}

/// Two parts with the same key are the same part.
pub proof fn part_key_injective(a: PartView, b: PartView)
    requires
        part_key(a) == part_key(b),
    ensures
        a == b,
{
    if let PartView::Volume { verbatim: _, volume: VolumeView::Disk(c) } = a {
        if let PartView::Volume { verbatim: _, volume: VolumeView::Disk(d) } = b {
            assert(seq![c][0] == seq![d][0]);
        }
    }
}

proof fn key_less_strict(a: (int, Seq<char>, Seq<char>), b: (int, Seq<char>, Seq<char>), c: (int, Seq<char>, Seq<char>))
    ensures
        !key_less(a, a),
        key_less(a, b) && key_less(b, c) ==> key_less(a, c),
        key_less(a, b) || a == b || key_less(b, a),
{
    less_irreflexive(a.1);
    less_irreflexive(a.2);
    if less(a.1, b.1) && less(b.1, c.1) {
        less_transitive(a.1, b.1, c.1);
    }
    if less(a.2, b.2) && less(b.2, c.2) {
        less_transitive(a.2, b.2, c.2);
    }
    less_total(a.1, b.1);
    less_total(a.2, b.2);
}

/// No path comes before itself.
pub proof fn path_less_irreflexive(a: Seq<PartView>)
    ensures
        !path_less(a, a),
    decreases a.len(),
{
    if a.len() > 0 {
        path_less_irreflexive(a.drop_first());
    }
}

/// The order of paths is transitive.
pub proof fn path_less_transitive(a: Seq<PartView>, b: Seq<PartView>, c: Seq<PartView>)
    requires
        path_less(a, b),
        path_less(b, c),
    ensures
        path_less(a, c),
    decreases a.len(),
{
    if a.len() > 0 {
        let x = part_key(a[0]);
        let y = part_key(b[0]);
        let z = part_key(c[0]);
        key_less_strict(x, y, z);
        key_less_strict(y, x, z);
        if x == y && y == z {
            path_less_transitive(a.drop_first(), b.drop_first(), c.drop_first());
        }
    }
}

/// Of two different paths one comes first.
pub proof fn path_less_total(a: Seq<PartView>, b: Seq<PartView>)
    ensures
        path_less(a, b) || a == b || path_less(b, a),
    decreases a.len(),
{
    if a.len() > 0 && b.len() > 0 {
        let x = part_key(a[0]);
        let y = part_key(b[0]);
        key_less_strict(x, y, x);
        if x == y {
            part_key_injective(a[0], b[0]);
            path_less_total(a.drop_first(), b.drop_first());
            if a.drop_first() == b.drop_first() {
                assert(a =~= seq![a[0]] + a.drop_first());
                assert(b =~= seq![b[0]] + b.drop_first());
            }
        }
    } else if a.len() == 0 && b.len() == 0 {
        assert(a =~= b);
    }
}

/// The paths ascend strictly, so that none stands there twice.
pub open spec fn ascend(list: Seq<LocationView>) -> bool {
    forall|i: int, j: int| 0 <= i < j < list.len() ==> path_less(#[trigger] list[i].parts, #[trigger] list[j].parts)
}

/// Whether a path is in a list, whatever its text.
pub open spec fn listed(list: Seq<LocationView>, parts: Seq<PartView>) -> bool {
    exists|i: int| 0 <= i < list.len() && #[trigger] list[i].parts == parts
}

proof fn placing_keeps_order(list: Seq<LocationView>, item: LocationView)
    requires
        ascend(list),
    ensures
        ascend(placed(list, item)),
        forall|parts: Seq<PartView>| #[trigger] listed(placed(list, item), parts) <==> (listed(list, parts) || parts == item.parts),
        forall|i: int| 0 <= i < placed(list, item).len() ==> list.contains(#[trigger] placed(list, item)[i]) || (placed(
            list,
            item,
        )[i] == item && !listed(list, item.parts)),
    decreases list.len(),
{
    let after = placed(list, item);
    if list.len() == 0 {
        assert(after[0] == item);
    } else {
        let front = list.drop_last();
        let last = list.last();
        assert forall|parts: Seq<PartView>| #[trigger] listed(list, parts) <==> (listed(front, parts) || parts == last.parts) by {
            if listed(list, parts) {
                let i = choose|i: int| 0 <= i < list.len() && #[trigger] list[i].parts == parts;
                if i < front.len() {
                    assert(front[i].parts == parts);
                }
            }
            if listed(front, parts) {
                let i = choose|i: int| 0 <= i < front.len() && #[trigger] front[i].parts == parts;
                assert(list[i].parts == parts);
            }
            assert(list[list.len() - 1] == last);
        }
        if last.parts == item.parts {
            assert forall|i: int| 0 <= i < after.len() implies list.contains(#[trigger] after[i]) by {
                assert(list[i] == after[i]);
            }
        } else if path_less(last.parts, item.parts) {
            assert(after =~= list.push(item));
            assert forall|i: int, j: int| 0 <= i < j < after.len() implies path_less(
                #[trigger] after[i].parts,
                #[trigger] after[j].parts,
            ) by {
                if j < list.len() {
                    assert(list[i] == after[i] && list[j] == after[j]);
                } else if i < list.len() - 1 {
                    assert(path_less(list[i].parts, list[list.len() - 1].parts));
                    path_less_transitive(list[i].parts, last.parts, item.parts);
                }
            }
            if listed(list, item.parts) {
                let i = choose|i: int| 0 <= i < list.len() && #[trigger] list[i].parts == item.parts;
                path_less_irreflexive(item.parts);
                if i < list.len() - 1 {
                    assert(path_less(list[i].parts, list[list.len() - 1].parts));
                    path_less_transitive(last.parts, item.parts, last.parts);
                    path_less_irreflexive(last.parts);
                }
            }
            assert forall|parts: Seq<PartView>| #[trigger] listed(after, parts) <==> (listed(list, parts) || parts
                == item.parts) by {
                pushed_is_listed(list, item, parts);
            }
            assert forall|i: int| 0 <= i < after.len() implies list.contains(#[trigger] after[i]) || (after[i] == item
                && !listed(list, item.parts)) by {
                if i < list.len() {
                    assert(list[i] == after[i]);
                }
            }
        } else {
            let rest = placed(front, item);
            assert(ascend(front)) by {
                assert forall|i: int, j: int| 0 <= i < j < front.len() implies path_less(
                    #[trigger] front[i].parts,
                    #[trigger] front[j].parts,
                ) by {
                    assert(path_less(list[i].parts, list[j].parts));
                }
            }
            placing_keeps_order(front, item);
            path_less_total(last.parts, item.parts);
            assert(after =~= rest.push(last));
            assert forall|i: int, j: int| 0 <= i < j < after.len() implies path_less(
                #[trigger] after[i].parts,
                #[trigger] after[j].parts,
            ) by {
                if j < rest.len() {
                    assert(rest[i] == after[i] && rest[j] == after[j]);
                } else {
                    assert(rest[i] == after[i]);
                    if front.contains(rest[i]) {
                        let k = choose|k: int| 0 <= k < front.len() && front[k] == rest[i];
                        assert(path_less(list[k].parts, list[list.len() - 1].parts));
                    }
                }
            }
            assert forall|parts: Seq<PartView>| #[trigger] listed(after, parts) <==> (listed(list, parts) || parts
                == item.parts) by {
                pushed_is_listed(rest, last, parts);
                assert(listed(rest, parts) <==> (listed(front, parts) || parts == item.parts));
            }
            assert forall|i: int| 0 <= i < after.len() implies list.contains(#[trigger] after[i]) || (after[i] == item
                && !listed(list, item.parts)) by {
                if i < rest.len() {
                    assert(rest[i] == after[i]);
                    if front.contains(rest[i]) {
                        let k = choose|k: int| 0 <= k < front.len() && front[k] == rest[i];
                        assert(list[k] == rest[i]);
                    }
                } else {
                    assert(list[list.len() - 1] == after[i]);
                }
            }
        }
    }
}

proof fn pushed_is_listed(list: Seq<LocationView>, item: LocationView, parts: Seq<PartView>)
    ensures
        listed(list.push(item), parts) <==> (listed(list, parts) || parts == item.parts),
{
    let after = list.push(item);
    if listed(after, parts) {
        let i = choose|i: int| 0 <= i < after.len() && #[trigger] after[i].parts == parts;
        if i < list.len() {
            assert(list[i].parts == parts);
        }
    }
    if listed(list, parts) {
        let i = choose|i: int| 0 <= i < list.len() && #[trigger] list[i].parts == parts;
        assert(after[i].parts == parts);
    }
    assert(after[list.len() as int] == item);
}

/// The ordered paths ascend strictly and are the given paths, each once; of
/// equal ones the first stays.
pub proof fn ordering_keeps_every_path(list: Seq<LocationView>)
    ensures
        ascend(ordered(list)),
        forall|parts: Seq<PartView>| #[trigger] listed(ordered(list), parts) <==> listed(list, parts),
        forall|i: int| 0 <= i < ordered(list).len() ==> first_of_its_path(list, #[trigger] ordered(list)[i]),
    decreases list.len(),
{
    if list.len() > 0 {
        let front = list.drop_last();
        let last = list.last();
        let held = ordered(front);
        let after = ordered(list);
        ordering_keeps_every_path(front);
        placing_keeps_order(held, last);
        assert(list =~= front.push(last));
        assert forall|parts: Seq<PartView>| #[trigger] listed(after, parts) <==> listed(list, parts) by {
            pushed_is_listed(front, last, parts);
            assert(listed(held, parts) <==> listed(front, parts));
        }
        assert forall|i: int| 0 <= i < after.len() implies first_of_its_path(list, #[trigger] after[i]) by {
            if held.contains(after[i]) {
                let k = choose|k: int| 0 <= k < held.len() && held[k] == after[i];
                assert(first_of_its_path(front, held[k]));
                let j = choose|j: int|
                    0 <= j < front.len() && #[trigger] front[j] == held[k] && forall|m: int|
                        0 <= m < j ==> (#[trigger] front[m]).parts != held[k].parts;
                assert(list[j] == after[i]);
                assert forall|m: int| 0 <= m < j implies (#[trigger] list[m]).parts != after[i].parts by {
                    assert(front[m] == list[m]);
                }
            } else {
                let j = list.len() - 1;
                assert(list[j] == after[i]);
                assert(!listed(held, last.parts));
                assert(!listed(front, last.parts));
                assert forall|m: int| 0 <= m < j implies (#[trigger] list[m]).parts != after[i].parts by {
                    assert(front[m] == list[m]);
                }
            }
        }
    }
}

/// `item` stands in the list, and no earlier entry is the same path.
pub open spec fn first_of_its_path(list: Seq<LocationView>, item: LocationView) -> bool {
    exists|j: int|
        0 <= j < list.len() && #[trigger] list[j] == item && forall|m: int|
            0 <= m < j ==> (#[trigger] list[m]).parts != item.parts
}

/// Ordering twice gives what ordering once gives.
pub proof fn ordering_is_idempotent(list: Seq<LocationView>)
    ensures
        ordered(ordered(list)) == ordered(list),
{
    ordering_keeps_every_path(list);
    ascending_is_ordered(ordered(list));
}

proof fn ascending_is_ordered(list: Seq<LocationView>)
    requires
        ascend(list),
    ensures
        ordered(list) == list,
    decreases list.len(),
{
    if list.len() > 0 {
        let front = list.drop_last();
        assert forall|i: int, j: int| 0 <= i < j < front.len() implies path_less(
            #[trigger] front[i].parts,
            #[trigger] front[j].parts,
        ) by {
            assert(path_less(list[i].parts, list[j].parts));
        }
        ascending_is_ordered(front);
        if front.len() > 0 {
            assert(path_less(list[list.len() - 2].parts, list[list.len() - 1].parts));
            path_less_irreflexive(list.last().parts);
        }
        assert(placed(front, list.last()) =~= list);
    }
}

// Local disk paths.

/// Why a path is not one on a local disk.
#[derive(Debug, Clone, Copy, PartialEq, Eq, Structural)]
pub enum DosFault {
    NotLocal,
    NotAbsolute,
    NotRooted,
    Alias,
}

/// The names from `from` on, in lower case, if all parts are names.
pub open spec fn names(parts: Seq<PartView>, from: int) -> Option<Seq<Seq<char>>>
    decreases parts.len() - from,
{
    if from >= parts.len() {
        Some(Seq::empty())
    } else {
        match (parts[from], names(parts, from + 1)) {
            (PartView::Name(n), Some(rest)) => Some(seq![lowered(n)] + rest),
            _ => None,
        }
    }
}

pub open spec fn disk_name(c: char) -> Seq<char> {
    lowered(seq![c]) + ":"@
}

/// The drive and the names of a path on a local disk, in lower case.
pub open spec fn dos_components(parts: Seq<PartView>) -> Result<Seq<Seq<char>>, DosFault> {
    if parts.len() == 0 || !(parts[0] is Volume) {
        Err(DosFault::NotAbsolute)
    } else {
        match parts[0]->volume {
            VolumeView::Disk(c) => if parts.len() < 2 || !(parts[1] is Root) {
                Err(DosFault::NotRooted)
            } else {
                match names(parts, 2) {
                    Some(rest) => Ok(seq![disk_name(c)] + rest),
                    None => Err(DosFault::Alias),
                }
            },
            _ => Err(DosFault::NotLocal),
        }
    }
}

/// The drive and the names of a path on a local disk, in lower case.
pub fn dos_path(parts: &Vec<Part>) -> (r: Result<Vec<String>, DosFault>)
    ensures
        match r {
            Ok(list) => dos_components(parts_of(parts@)) == Ok::<Seq<Seq<char>>, DosFault>(texts(list@)),
            Err(f) => dos_components(parts_of(parts@)) == Err::<Seq<Seq<char>>, DosFault>(f),
        },
{
    let ghost all = parts_of(parts@);
    if parts.len() == 0 {
        return Err(DosFault::NotAbsolute);
    }
    assert(all[0] == parts@[0]@);
    let drive = match &parts[0] {
        Part::Volume { verbatim: _, volume } => match volume {
            Volume::Disk(c) => *c,
            _ => {
                return Err(DosFault::NotLocal);
            },
        },
        _ => {
            return Err(DosFault::NotAbsolute);
        },
    };
    if parts.len() < 2 {
        return Err(DosFault::NotRooted);
    }
    assert(all[1] == parts@[1]@);
    match &parts[1] {
        Part::Root => {},
        _ => {
            return Err(DosFault::NotRooted);
        },
    }
    let mut found: Vec<String> = Vec::new();
    let mut i: usize = parts.len();
    assert(texts(found@) =~= Seq::<Seq<char>>::empty());
    while i > 2
        invariant
            2 <= i <= parts.len(),
            all == parts_of(parts@),
            all[0] is Volume && all[0]->volume == VolumeView::Disk(drive),
            all[1] is Root,
            names(all, i as int) == Some(texts(found@).reverse()),
        decreases i,
    {
        i = i - 1;
        assert(all[i as int] == parts@[i as int]@);
        match &parts[i] {
            Part::Name(n) => {
                let ghost held = texts(found@);
                let low = lower(n);
                found.push(low);
                proof {
                    assert(texts(found@) =~= held.push(low@));
                    assert(held.push(low@).reverse() =~= seq![low@] + held.reverse());
                }
            },
            _ => {
                proof {
                    no_names(all, 2, i as int);
                }
                return Err(DosFault::Alias);
            },
        }
    }
    let mut t = String::new();
    push(&mut t, drive);
    assert(t@ =~= seq![drive]);
    let head = joined(&lower(&t), ":");
    let mut r: Vec<String> = Vec::new();
    r.push(head);
    let ghost rest = texts(found@).reverse();
    assert(texts(r@) =~= seq![disk_name(drive)]);
    while found.len() > 0
        invariant
            texts(r@) + texts(found@).reverse() == seq![disk_name(drive)] + rest,
        decreases found.len(),
    {
        let ghost held = texts(found@);
        let ghost done = texts(r@);
        let popped = found.pop();
        if let Some(x) = popped {
            assert(held =~= texts(found@).push(x@));
            assert(held.reverse() =~= seq![x@] + texts(found@).reverse());
            r.push(x);
            assert(texts(r@) =~= done.push(x@));
            assert(done + held.reverse() =~= done.push(x@) + texts(found@).reverse());
        }
    }
    assert(texts(found@).reverse() =~= Seq::<Seq<char>>::empty());
    assert(texts(r@) =~= seq![disk_name(drive)] + rest);
    Ok(r)
}

proof fn no_names(parts: Seq<PartView>, from: int, at: int)
    requires
        0 <= from <= at < parts.len(),
        !(parts[at] is Name),
    ensures
        names(parts, from) is None,
    decreases at - from,
{
    if from < at {
        no_names(parts, from + 1, at);
    }
}

/// One list of names begins with another.
pub open spec fn begins_with(list: Seq<Seq<char>>, head: Seq<Seq<char>>) -> bool {
    head.len() <= list.len() && list.subrange(0, head.len() as int) == head
}

pub fn names_begin(list: &Vec<String>, head: &Vec<String>) -> (r: bool)
    ensures
        r == begins_with(texts(list@), texts(head@)),
{
    if head.len() > list.len() {
        return false;
    }
    let ghost p = texts(list@);
    let ghost q = texts(head@);
    let mut i: usize = 0;
    while i < head.len()
        invariant
            i <= head.len() <= list.len(),
            p == texts(list@),
            q == texts(head@),
            forall|j: int| 0 <= j < i ==> p[j] == q[j],
        decreases head.len() - i,
    {
        if !same(&list[i], &head[i]) {
            assert(p.subrange(0, q.len() as int)[i as int] != q[i as int]);
            return false;
        }
        i = i + 1;
    }
    assert(p.subrange(0, q.len() as int) =~= q);
    true
}

// Keys of provider paths.

/// The names from `from` on, in full lower case, if all parts are names.
pub open spec fn folded_names(parts: Seq<PartView>, from: int) -> Option<Seq<Seq<char>>>
    decreases parts.len() - from,
{
    if from >= parts.len() {
        Some(Seq::empty())
    } else {
        match (parts[from], folded_names(parts, from + 1)) {
            (PartView::Name(n), Some(rest)) => Some(seq![lowercased(n)] + rest),
            _ => None,
        }
    }
}

/// A path on a disk or a share as a list of comparable names.
pub open spec fn component_key(parts: Seq<PartView>) -> Option<Seq<Seq<char>>> {
    if parts.len() < 2 || !(parts[0] is Volume) || !(parts[1] is Root) {
        None
    } else {
        let head = match parts[0]->volume {
            VolumeView::Disk(c) => Some("disk:"@ + lowered(seq![c])),
            VolumeView::Share(a, b) => Some("unc:"@ + lowercased(a) + ":"@ + lowercased(b)),
            VolumeView::Other(_) => None,
        };
        match (head, folded_names(parts, 2)) {
            (Some(h), Some(rest)) => Some(seq![h] + rest),
            _ => None,
        }
    }
}

proof fn no_folded_names(parts: Seq<PartView>, from: int, at: int)
    requires
        0 <= from <= at < parts.len(),
        !(parts[at] is Name),
    ensures
        folded_names(parts, from) is None,
    decreases at - from,
{
    if from < at {
        no_folded_names(parts, from + 1, at);
    }
}

pub fn windows_component_key(parts: &Vec<Part>) -> (r: Option<Vec<String>>)
    ensures
        match r {
            Some(list) => component_key(parts_of(parts@)) == Some(texts(list@)),
            None => component_key(parts_of(parts@)) is None,
        },
{
    let ghost all = parts_of(parts@);
    if parts.len() < 2 {
        return None;
    }
    assert(all[0] == parts@[0]@ && all[1] == parts@[1]@);
    let head = match &parts[0] {
        Part::Volume { verbatim: _, volume } => match volume {
            Volume::Disk(c) => {
                let mut t = String::new();
                push(&mut t, *c);
                assert(t@ =~= seq![*c]);
                joined("disk:", &lower(&t))
            },
            Volume::Share(a, b) => {
                let t = joined("unc:", &lowercase(a));
                let t = joined(&t, ":");
                joined(&t, &lowercase(b))
            },
            Volume::Other(_) => {
                return None;
            },
        },
        _ => {
            return None;
        },
    };
    match &parts[1] {
        Part::Root => {},
        _ => {
            return None;
        },
    }
    let ghost h = head@;
    let mut found: Vec<String> = Vec::new();
    let mut i: usize = parts.len();
    assert(texts(found@) =~= Seq::<Seq<char>>::empty());
    while i > 2
        invariant
            2 <= i <= parts.len(),
            all == parts_of(parts@),
            folded_names(all, i as int) == Some(texts(found@).reverse()),
        decreases i,
    {
        i = i - 1;
        assert(all[i as int] == parts@[i as int]@);
        match &parts[i] {
            Part::Name(n) => {
                let ghost held = texts(found@);
                let low = lowercase(n);
                found.push(low);
                proof {
                    assert(texts(found@) =~= held.push(low@));
                    assert(held.push(low@).reverse() =~= seq![low@] + held.reverse());
                }
            },
            _ => {
                proof {
                    no_folded_names(all, 2, i as int);
                }
                return None;
            },
        }
    }
    let mut r: Vec<String> = Vec::new();
    r.push(head);
    let ghost rest = texts(found@).reverse();
    assert(texts(r@) =~= seq![h]);
    while found.len() > 0
        invariant
            texts(r@) + texts(found@).reverse() == seq![h] + rest,
        decreases found.len(),
    {
        let ghost held = texts(found@);
        let ghost done = texts(r@);
        let popped = found.pop();
        if let Some(x) = popped {
            assert(held =~= texts(found@).push(x@));
            assert(held.reverse() =~= seq![x@] + texts(found@).reverse());
            r.push(x);
            assert(texts(r@) =~= done.push(x@));
            assert(done + held.reverse() =~= done.push(x@) + texts(found@).reverse());
        }
    }
    assert(texts(found@).reverse() =~= Seq::<Seq<char>>::empty());
    assert(texts(r@) =~= seq![h] + rest);
    Some(r)
}

/// A path lies under one of the roots, by its comparable names.
pub open spec fn keyed_under(path: Seq<PartView>, roots: Seq<LocationView>) -> bool {
    exists|i: int|
        0 <= i < roots.len() && component_key(path) is Some && component_key((#[trigger] roots[i]).parts) is Some
            && begins_with(component_key(path)->0, component_key(roots[i].parts)->0)
}

/// Whether a disk or share path lies under one of the roots, without looking at the disk.
pub fn lexically_allowed(path: &Vec<Part>, roots: &Vec<Location>) -> (r: bool)
    ensures
        r == keyed_under(parts_of(path@), locations_of(roots@)),
{
    let key = match windows_component_key(path) {
        Some(key) => key,
        None => {
            return false;
        },
    };
    let ghost all = locations_of(roots@);
    let ghost p = parts_of(path@);
    let mut i: usize = 0;
    while i < roots.len()
        invariant
            i <= roots.len(),
            all == locations_of(roots@),
            p == parts_of(path@),
            component_key(p) == Some(texts(key@)),
            forall|j: int|
                0 <= j < i ==> !(component_key((#[trigger] all[j]).parts) is Some && begins_with(
                    component_key(p)->0,
                    component_key(all[j].parts)->0,
                )),
        decreases roots.len() - i,
    {
        assert(all[i as int].parts == parts_of(roots@[i as int].parts@));
        if let Some(root) = windows_component_key(&roots[i].parts) {
            if names_begin(&key, &root) {
                return true;
            }
        }
        i = i + 1;
    }
    false
}

// Parts that are refused.

pub open spec fn climbs(parts: Seq<PartView>) -> bool {
    exists|i: int| 0 <= i < parts.len() && (#[trigger] parts[i]) is Parent
}

pub open spec fn stays(parts: Seq<PartView>) -> bool {
    exists|i: int| 0 <= i < parts.len() && (#[trigger] parts[i]) is Current
}

/// Whether a path holds a step to a parent directory.
pub fn has_parent(parts: &Vec<Part>) -> (r: bool)
    ensures
        r == climbs(parts_of(parts@)),
{
    let ghost all = parts_of(parts@);
    let mut i: usize = 0;
    while i < parts.len()
        invariant
            i <= parts.len(),
            all == parts_of(parts@),
            forall|j: int| 0 <= j < i ==> !((#[trigger] all[j]) is Parent),
        decreases parts.len() - i,
    {
        assert(all[i as int] == parts@[i as int]@);
        if let Part::Parent = &parts[i] {
            return true;
        }
        i = i + 1;
    }
    false
}

/// Whether a path holds a step to the same directory.
pub fn has_current(parts: &Vec<Part>) -> (r: bool)
    ensures
        r == stays(parts_of(parts@)),
{
    let ghost all = parts_of(parts@);
    let mut i: usize = 0;
    while i < parts.len()
        invariant
            i <= parts.len(),
            all == parts_of(parts@),
            forall|j: int| 0 <= j < i ==> !((#[trigger] all[j]) is Current),
        decreases parts.len() - i,
    {
        assert(all[i as int] == parts@[i as int]@);
        if let Part::Current = &parts[i] {
            return true;
        }
        i = i + 1;
    }
    false
}

/// A directory whose name begins with a dot.
pub open spec fn is_control_part(p: PartView) -> bool {
    p is Name && starts_with(p->Name_0, "."@)
}

pub open spec fn controlled_path(parts: Seq<PartView>) -> bool {
    exists|i: int| 0 <= i < parts.len() && is_control_part(#[trigger] parts[i])
}

/// Whether a path leads through a directory whose name begins with a dot.
pub fn in_control_directory(parts: &Vec<Part>) -> (r: bool)
    ensures
        r == controlled_path(parts_of(parts@)),
{
    let ghost all = parts_of(parts@);
    let mut i: usize = 0;
    while i < parts.len()
        invariant
            i <= parts.len(),
            all == parts_of(parts@),
            forall|j: int| 0 <= j < i ==> !is_control_part(#[trigger] all[j]),
        decreases parts.len() - i,
    {
        assert(all[i as int] == parts@[i as int]@);
        if let Part::Name(n) = &parts[i] {
            if begins(n, ".") {
                assert(is_control_part(all[i as int]));
                return true;
            }
        }
        i = i + 1;
    }
    false
}

/// A path under a root of names is one whose names begin with the root's.
pub proof fn under_is_transitive(a: Seq<PartView>, b: Seq<PartView>, c: Seq<PartView>)
    requires
        is_under(a, b),
        is_under(b, c),
    ensures
        is_under(a, c),
{
    assert(a.subrange(0, c.len() as int) =~= b.subrange(0, c.len() as int));
}

proof fn placed_is_part(list: Seq<LocationView>, item: LocationView, i: int)
    requires
        0 <= i < placed(list, item).len(),
    ensures
        placed(list, item)[i] == item || list.contains(placed(list, item)[i]),
    decreases list.len(),
{
    let now = placed(list, item);
    if list.len() == 0 {
    } else if list.last().parts == item.parts {
        assert(list[i] == now[i]);
    } else if path_less(list.last().parts, item.parts) {
        if i < list.len() {
            assert(list[i] == now[i]);
        }
    } else {
        let front = list.drop_last();
        if i == now.len() - 1 {
            assert(list[list.len() - 1] == now[i]);
        } else {
            placed_is_part(front, item, i);
            if now[i] != item {
                let j = choose|j: int| 0 <= j < front.len() && front[j] == now[i];
                assert(list[j] == now[i]);
            }
        }
    }
}

/// Ordering paths makes up none.
pub proof fn ordered_is_part(list: Seq<LocationView>, i: int) -> (k: int)
    requires
        0 <= i < ordered(list).len(),
    ensures
        0 <= k < list.len(),
        list[k] == ordered(list)[i],
    decreases list.len(),
{
    let front = list.drop_last();
    placed_is_part(ordered(front), list.last(), i);
    if ordered(list)[i] == list.last() {
        list.len() - 1
    } else {
        let j = choose|j: int| 0 <= j < ordered(front).len() && ordered(front)[j] == ordered(list)[i];
        let k = ordered_is_part(front, j);
        assert(list[k] == front[k]);
        k
    }
}

} // verus!
