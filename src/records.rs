//! Platform and reward records and their extraction from the array literals
//! of a section's render function.
use vstd::prelude::*;
use crate::literal::{
    color_of, first_char, Rgb, first_char_of, last_literal, literal_property, parse_color, parse_u8,
    u8_of,
};
use crate::navigate::{array_of_object_literals, objects_of, same_text};
use crate::node::{ArrayExpr, Body, Declarator, Expr, Function, ObjectExpr, Stmt};
use crate::web::{parse_url, url_serialization};

verus! {

/// The values that the references of `s` point to.
pub open spec fn derefs<T>(s: Seq<&T>) -> Seq<T> {
    s.map_values(|r: &T| *r)
}

/// The views of the items of `s`.
pub open spec fn views<T: View>(s: Seq<T>) -> Seq<T::V> {
    s.map_values(|t: T| t@)
}

/// The view of an optional value.
pub open spec fn opt_view<T: View>(o: Option<T>) -> Option<T::V> {
    match o {
        Some(t) => Some(t@),
        None => None,
    }
}

/// A kind of record read from object literals and keyed by a name.
pub trait Item: View + Sized {
    /// The key of a record.
    spec fn key_of(v: Self::V) -> Seq<char>;

    /// The record an object literal describes, if it carries every required
    /// key with a value of the right shape.
    spec fn decoded(o: ObjectExpr) -> Option<Self::V>;

    /// The key of this record.
    fn name(&self) -> (r: &str)
        ensures
            r@ == Self::key_of(self@),
    ;

    /// Reads a record from an object literal, as [`Item::decoded`] states.
    fn from_object(o: &ObjectExpr) -> (r: Option<Self>)
        ensures
            opt_view(r) == Self::decoded(*o),
    ;
}

/// A chat platform: its name and the URL of its image.
#[derive(Clone, Debug, PartialEq, Eq)]
pub struct Platform {
    pub name: String,
    /// The serialization of the parsed image URL.
    pub image: String,
}

/// What a [`Platform`] holds.
pub struct PlatformView {
    pub name: Seq<char>,
    pub image: Seq<char>,
}

impl View for Platform {
    type V = PlatformView;

    open spec fn view(&self) -> PlatformView {
        PlatformView { name: self.name@, image: self.image@ }
    }
}

/// A reward: title, description, colour, price in tokens, optional icon.
#[derive(Clone, Debug, PartialEq, Eq)]
pub struct Reward {
    pub title: String,
    pub description: String,
    pub color: Rgb,
    pub tokens: u8,
    pub icon: Option<char>,
}

/// What a [`Reward`] holds.
pub struct RewardView {
    pub title: Seq<char>,
    pub description: Seq<char>,
    pub color: Rgb,
    pub tokens: u8,
    pub icon: Option<char>,
}

impl View for Reward {
    type V = RewardView;

    open spec fn view(&self) -> RewardView {
        RewardView {
            title: self.title@,
            description: self.description@,
            color: self.color,
            tokens: self.tokens,
            icon: self.icon,
        }
    }
}

/// The platform an object literal describes: it needs literal `name` and
/// `image` values, and an image that parses as a URL.
pub open spec fn platform_of(o: ObjectExpr) -> Option<PlatformView> {
    match (last_literal(o.properties@, "name"@), last_literal(o.properties@, "image"@)) {
        (Some(n), Some(i)) => match url_serialization(i) {
            Some(u) => Some(PlatformView { name: n, image: u }),
            None => None,
        },
        _ => None,
    }
}

/// The reward an object literal describes: it needs literal `title`,
/// `description`, `color` and `tokens` values, a colour token of the shape
/// `bg-[#RRGGBB]` and a token count that is a byte; the icon is the first
/// character of the `icon` value, when there is one.
pub open spec fn reward_of(o: ObjectExpr) -> Option<RewardView> {
    let props = o.properties@;
    match (
        last_literal(props, "title"@),
        last_literal(props, "description"@),
        last_literal(props, "color"@),
        last_literal(props, "tokens"@),
    ) {
        (Some(t), Some(d), Some(c), Some(k)) => match (color_of(c), u8_of(k)) {
            (Some(color), Some(tokens)) => Some(
                RewardView {
                    title: t,
                    description: d,
                    color,
                    tokens,
                    icon: match last_literal(props, "icon"@) {
                        Some(i) => first_char(i),
                        None => None,
                    },
                },
            ),
            _ => None,
        },
        _ => None,
    }
}

impl Item for Platform {
    open spec fn key_of(v: PlatformView) -> Seq<char> {
        v.name
    }

    open spec fn decoded(o: ObjectExpr) -> Option<PlatformView> {
        platform_of(o)
    }

    fn name(&self) -> (r: &str) {
        self.name.as_str()
    }

    fn from_object(o: &ObjectExpr) -> (r: Option<Platform>) {
        let name = literal_property(o, "name")?;
        let image = literal_property(o, "image")?;
        let url = parse_url(image.as_str())?;
        Some(Platform { name: name.clone(), image: url })
    }
}

impl Item for Reward {
    open spec fn key_of(v: RewardView) -> Seq<char> {
        v.title
    }

    open spec fn decoded(o: ObjectExpr) -> Option<RewardView> {
        reward_of(o)
    }

    fn name(&self) -> (r: &str) {
        self.title.as_str()
    }

    fn from_object(o: &ObjectExpr) -> (r: Option<Reward>) {
        let title = literal_property(o, "title")?;
        let description = literal_property(o, "description")?;
        let color = literal_property(o, "color")?;
        let tokens = literal_property(o, "tokens")?;
        let color = parse_color(color.as_str())?;
        let tokens = parse_u8(tokens.as_str())?;
        let icon = match literal_property(o, "icon") {
            Some(i) => first_char_of(i.as_str()),
            None => None,
        };
        Some(Reward { title: title.clone(), description: description.clone(), color, tokens, icon })
    }
}

/// The statements of a function's body; the abbreviated form has none.
pub open spec fn body_statements(f: Function) -> Seq<Stmt> {
    match f.body {
        Body::Statements(stmts) => stmts@,
        Body::Expression(_) => Seq::empty(),
    }
}

/// The array literals that initialise the bindings `decls`, in order.
pub open spec fn declarator_arrays(decls: Seq<Declarator>) -> Seq<ArrayExpr>
    decreases decls.len(),
{
    if decls.len() == 0 {
        Seq::empty()
    } else {
        let init = declarator_arrays(decls.drop_last());
        match decls.last().init {
            Some(Expr::Array(a)) => init.push(a),
            _ => init,
        }
    }
}

/// The array literals that initialise the bindings declared by `stmts`
/// themselves, in declaration order.
pub open spec fn statement_arrays(stmts: Seq<Stmt>) -> Seq<ArrayExpr>
    decreases stmts.len(),
{
    if stmts.len() == 0 {
        Seq::empty()
    } else {
        let init = statement_arrays(stmts.drop_last());
        match stmts.last() {
            Stmt::Variables(decls) => init + declarator_arrays(decls@),
            _ => init,
        }
    }
}

/// The object literals of the arrays `arrays`, array after array.
pub open spec fn objects_in(arrays: Seq<ArrayExpr>) -> Seq<ObjectExpr>
    decreases arrays.len(),
{
    if arrays.len() == 0 {
        Seq::empty()
    } else {
        objects_in(arrays.drop_last()) + objects_of(arrays.last().elements@)
    }
}

/// The object literals of the arrays that a section's render function binds
/// at the top of its body, in declaration and element order.
pub open spec fn section_objects(f: Function) -> Seq<ObjectExpr> {
    objects_in(statement_arrays(body_statements(f)))
}

/// The records that the objects `objs` describe, in order; an object that
/// describes none is dropped.
pub open spec fn candidates<T: Item>(objs: Seq<ObjectExpr>) -> Seq<T::V>
    decreases objs.len(),
{
    if objs.len() == 0 {
        Seq::empty()
    } else {
        let init = candidates::<T>(objs.drop_last());
        match T::decoded(objs.last()) {
            Some(v) => init.push(v),
            None => init,
        }
    }
}

/// Whether a later record of `s` has the key of record `i`.
pub open spec fn superseded<T: Item>(s: Seq<T::V>, i: int) -> bool {
    exists|j: int| i < j < s.len() && T::key_of(#[trigger] s[j]) == T::key_of(s[i])
}

/// The records among the first `n` of `s` that no later record of `s`
/// supersedes, in order.
pub open spec fn kept_prefix<T: Item>(s: Seq<T::V>, n: int) -> Seq<T::V>
    decreases n,
{
    if n <= 0 {
        Seq::empty()
    } else {
        let init = kept_prefix::<T>(s, n - 1);
        if superseded::<T>(s, n - 1) {
            init
        } else {
            init.push(s[n - 1])
        }
    }
}

/// `s` with one record per key: the last occurrence of each key stays, in
/// its place.
pub open spec fn keep_last<T: Item>(s: Seq<T::V>) -> Seq<T::V> {
    kept_prefix::<T>(s, s.len() as int)
}

/// The records a section's render function holds: one per object literal
/// that describes one, the last occurrence of each key only.
pub open spec fn records_in<T: Item>(f: Function) -> Seq<T::V> {
    keep_last::<T>(candidates::<T>(section_objects(f)))
}

/// The array literals initialising the top-level bindings of `f`'s body.
pub fn section_arrays<'a>(f: &'a Function) -> (r: Vec<&'a ArrayExpr>)
    ensures
        derefs(r@) == statement_arrays(body_statements(*f)),
{
    let mut out: Vec<&'a ArrayExpr> = Vec::new();
    let stmts = match &f.body {
        Body::Statements(stmts) => stmts,
        Body::Expression(_) => {
            assert(derefs(out@) =~= Seq::<ArrayExpr>::empty());
            return out;
        },
    };
    let mut i: usize = 0;
    assert(derefs(out@) =~= statement_arrays(stmts@.subrange(0, 0)));
    while i < stmts.len()
        invariant
            body_statements(*f) == stmts@,
            i <= stmts@.len(),
            derefs(out@) == statement_arrays(stmts@.subrange(0, i as int)),
        decreases stmts@.len() - i,
    {
        assert(stmts@.subrange(0, i + 1).drop_last() == stmts@.subrange(0, i as int));
        if let Stmt::Variables(decls) = &stmts[i] {
            let ghost before = derefs(out@);
            let mut k: usize = 0;
            assert(before + declarator_arrays(decls@.subrange(0, 0)) =~= before);
            while k < decls.len()
                invariant
                    k <= decls@.len(),
                    derefs(out@) == before + declarator_arrays(decls@.subrange(0, k as int)),
                decreases decls@.len() - k,
            {
                assert(decls@.subrange(0, k + 1).drop_last() == decls@.subrange(0, k as int));
                if let Some(Expr::Array(a)) = &decls[k].init {
                    let ghost prev = out@;
                    out.push(a);
                    assert(derefs(out@) =~= derefs(prev).push(*a));
                    assert(derefs(out@) =~= before + declarator_arrays(decls@.subrange(0, k + 1)));
                }
                k = k + 1;
            }
            assert(decls@.subrange(0, decls@.len() as int) == decls@);
        }
        i = i + 1;
    }
    assert(stmts@.subrange(0, stmts@.len() as int) == stmts@);
    out
}

/// `items` with one record per key, as [`keep_last`] states.
pub fn keep_last_of_each<T: Item>(items: Vec<T>) -> (r: Vec<T>)
    ensures
        views(r@) == keep_last::<T>(views(items@)),
{
    let ghost s = views(items@);
    let n = items.len();
    let mut rest = items;
    let mut out: Vec<T> = Vec::new();
    let mut i: usize = 0;
    assert(views(out@) =~= kept_prefix::<T>(s, 0));
    while i < n
        invariant
            n == s.len(),
            s == views(items@),
            i <= n,
            rest@.len() == n - i,
            forall|k: int| 0 <= k < rest@.len() ==> #[trigger] rest@[k]@ == s[k + i],
            views(out@) == kept_prefix::<T>(s, i as int),
        decreases n - i,
    {
        let mut later = false;
        let mut j: usize = 1;
        while j < rest.len()
            invariant
                1 <= j <= rest@.len(),
                rest@.len() == n - i,
                forall|k: int| 0 <= k < rest@.len() ==> #[trigger] rest@[k]@ == s[k + i],
                later == exists|m: int| i < m < i + j && T::key_of(#[trigger] s[m]) == T::key_of(s[i as int]),
            decreases rest@.len() - j,
        {
            let same = same_text(rest[j].name(), rest[0].name());
            proof {
                assert(rest@[j as int]@ == s[j + i]);
                assert(rest@[0]@ == s[i as int]);
                if same {
                    assert(T::key_of(s[(i + j) as int]) == T::key_of(s[i as int]));
                }
            }
            later = later || same;
            j = j + 1;
        }
        assert(later == superseded::<T>(s, i as int));
        let ghost prev_out = out@;
        let ghost prev_rest = rest@;
        let item = rest.remove(0);
        assert(item@ == s[i as int]);
        if !later {
            out.push(item);
            assert(views(out@) =~= views(prev_out).push(s[i as int]));
        }
        assert forall|k: int| 0 <= k < rest@.len() implies #[trigger] rest@[k]@ == s[k + i + 1] by {
            assert(rest@[k] == prev_rest[k + 1]);
        }
        i = i + 1;
    }
    out
}

/// The records of kind `T` that the section function `f` holds, as
/// [`records_in`] states.
pub fn section_records<T: Item>(f: &Function) -> (r: Vec<T>)
    ensures
        views(r@) == records_in::<T>(*f),
{
    let arrays = section_arrays(f);
    let ghost arrs = derefs(arrays@);
    let mut found: Vec<T> = Vec::new();
    let mut i: usize = 0;
    assert(views(found@) =~= candidates::<T>(objects_in(arrs.subrange(0, 0))));
    while i < arrays.len()
        invariant
            arrs == derefs(arrays@),
            i <= arrays@.len(),
            views(found@) == candidates::<T>(objects_in(arrs.subrange(0, i as int))),
        decreases arrays@.len() - i,
    {
        let objs = array_of_object_literals(arrays[i]);
        let ghost done = objects_in(arrs.subrange(0, i as int));
        let ghost these = objects_of(arrs[i as int].elements@);
        assert(arrs.subrange(0, i + 1).drop_last() == arrs.subrange(0, i as int));
        assert(*arrays@[i as int] == arrs[i as int]);
        let mut j: usize = 0;
        assert(done + these.subrange(0, 0) == done);
        while j < objs.len()
            invariant
                objs@.len() == these.len(),
                forall|k: int| 0 <= k < objs@.len() ==> *objs@[k] == these[k],
                j <= objs@.len(),
                views(found@) == candidates::<T>(done + these.subrange(0, j as int)),
            decreases objs@.len() - j,
        {
            let ghost prefix = done + these.subrange(0, j as int);
            assert((done + these.subrange(0, j + 1)).drop_last() == prefix);
            assert((done + these.subrange(0, j + 1)).last() == these[j as int]);
            let ghost prev = found@;
            match T::from_object(objs[j]) {
                Some(rec) => {
                    found.push(rec);
                    assert(views(found@) =~= views(prev).push(rec@));
                },
                None => {},
            }
            j = j + 1;
        }
        assert(these.subrange(0, these.len() as int) == these);
        i = i + 1;
    }
    assert(arrs.subrange(0, arrs.len() as int) == arrs);
    keep_last_of_each(found)
}

/// The platforms of the platform section's render function.
pub fn get_platforms(section: &Function) -> (r: Vec<Platform>)
    ensures
        views(r@) == records_in::<Platform>(*section),
{
    section_records(section)
}

/// The rewards of the reward section's render function, from all of its
/// arrays in declaration order.
pub fn get_rewards(section: &Function) -> (r: Vec<Reward>)
    ensures
        views(r@) == records_in::<Reward>(*section),
{
    section_records(section)
}

} // verus!
