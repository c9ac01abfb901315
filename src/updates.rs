//! Rewards as the shop lists them, and the changes between two listings.
use vstd::prelude::*;
use crate::records::views;
use crate::text::{decimal, decimal_text, join, joined, texts, trim, trimmed};

verus! {

/// A reward as the shop page lists it.
#[derive(Clone, Debug, PartialEq, Eq)]
pub struct Reward {
    pub title: String,
    pub description: String,
    pub tokens: u8,
    /// The serialization of the parsed image URL.
    pub image_url: String,
}

/// What a listed [`Reward`] holds.
pub struct RewardView {
    pub title: Seq<char>,
    pub description: Seq<char>,
    pub tokens: u8,
    pub image_url: Seq<char>,
}

impl View for Reward {
    type V = RewardView;

    open spec fn view(&self) -> RewardView {
        RewardView {
            title: self.title@,
            description: self.description@,
            tokens: self.tokens,
            image_url: self.image_url@,
        }
    }
}

impl Reward {
    /// A copy of this reward.
    pub fn duplicate(&self) -> (r: Reward)
        ensures
            r@ == self@,
    {
        Reward {
            title: self.title.clone(),
            description: self.description.clone(),
            tokens: self.tokens,
            image_url: self.image_url.clone(),
        }
    }

    /// Whether this reward and `other` hold the same values.
    pub fn same_as(&self, other: &Reward) -> (r: bool)
        ensures
            r == (self@ == other@),
    {
        self.title == other.title && self.description == other.description && self.tokens
            == other.tokens && self.image_url == other.image_url
    }
}

/// One change between two listings.
#[derive(Clone, Debug)]
pub enum RewardUpdate {
    New(Reward),
    Updated { old: Reward, new: Reward },
    Removed(Reward),
}

/// What a [`RewardUpdate`] holds.
pub enum UpdateView {
    New(RewardView),
    Updated { old: RewardView, new: RewardView },
    Removed(RewardView),
}

impl View for RewardUpdate {
    type V = UpdateView;

    open spec fn view(&self) -> UpdateView {
        match self {
            RewardUpdate::New(r) => UpdateView::New(r@),
            RewardUpdate::Updated { old, new } => UpdateView::Updated { old: old@, new: new@ },
            RewardUpdate::Removed(r) => UpdateView::Removed(r@),
        }
    }
}

/// The reward an update is about: the new one of an updated reward.
pub open spec fn item_of(u: UpdateView) -> RewardView {
    match u {
        UpdateView::New(r) => r,
        UpdateView::Updated { new, .. } => new,
        UpdateView::Removed(r) => r,
    }
}

/// The chat emoji that marks an update's kind.
pub open spec fn emoji_of(u: UpdateView) -> Seq<char> {
    match u {
        UpdateView::New(_) => ":new:"@,
        UpdateView::Updated { .. } => ":arrows_counterclockwise:"@,
        UpdateView::Removed(_) => ":win10-trash:"@,
    }
}

impl RewardUpdate {
    /// The title of the reward this update is about.
    pub fn item_name(&self) -> (r: &str)
        ensures
            r@ == item_of(self@).title,
    {
        match self {
            RewardUpdate::New(item) => item.title.as_str(),
            RewardUpdate::Updated { new, .. } => new.title.as_str(),
            RewardUpdate::Removed(item) => item.title.as_str(),
        }
    }

    /// The chat emoji that marks this kind of update.
    pub fn emoji(&self) -> (r: &'static str)
        ensures
            r@ == emoji_of(self@),
    {
        match self {
            RewardUpdate::New(_) => ":new:",
            RewardUpdate::Updated { .. } => ":arrows_counterclockwise:",
            RewardUpdate::Removed(_) => ":win10-trash:",
        }
    }

    /// The reward this update is about.
    pub fn item(&self) -> (r: &Reward)
        ensures
            r@ == item_of(self@),
    {
        match self {
            RewardUpdate::New(item) => item,
            RewardUpdate::Updated { new, .. } => new,
            RewardUpdate::Removed(item) => item,
        }
    }

    /// The reward as it was before, for an updated reward.
    pub fn old_item(&self) -> (r: Option<&Reward>)
        ensures
            match self@ {
                UpdateView::Updated { old, .. } => r matches Some(o) && o@ == old,
                _ => r is None,
            },
    {
        match self {
            RewardUpdate::Updated { old, .. } => Some(old),
            _ => None,
        }
    }
}

/// The first reward of `s` titled `title`.
pub open spec fn first_titled(s: Seq<RewardView>, title: Seq<char>) -> Option<RewardView>
    decreases s.len(),
{
    if s.len() == 0 {
        None
    } else if s[0].title == title {
        Some(s[0])
    } else {
        first_titled(s.drop_first(), title)
    }
}

/// Whether some reward of `s` is titled `title`.
pub open spec fn has_title(s: Seq<RewardView>, title: Seq<char>) -> bool {
    exists|i: int| 0 <= i < s.len() && (#[trigger] s[i]).title == title
}

/// The update that reward `n` of the new listing calls for: `New` when the
/// old listing has no reward of its title, `Updated` when the first one it
/// has differs, none when that one is equal.
pub open spec fn update_for(old: Seq<RewardView>, n: RewardView) -> Option<UpdateView> {
    match first_titled(old, n.title) {
        None => Some(UpdateView::New(n)),
        Some(o) => if o == n {
            None
        } else {
            Some(UpdateView::Updated { old: o, new: n })
        },
    }
}

/// The `New` and `Updated` changes, in the order of the new listing.
pub open spec fn arrivals(old: Seq<RewardView>, new: Seq<RewardView>) -> Seq<UpdateView>
    decreases new.len(),
{
    if new.len() == 0 {
        Seq::empty()
    } else {
        let init = arrivals(old, new.drop_last());
        match update_for(old, new.last()) {
            Some(u) => init.push(u),
            None => init,
        }
    }
}

/// The `Removed` changes: the rewards of the old listing whose title the new
/// one lacks, in the order of the old listing.
pub open spec fn departures(old: Seq<RewardView>, new: Seq<RewardView>) -> Seq<UpdateView>
    decreases old.len(),
{
    if old.len() == 0 {
        Seq::empty()
    } else {
        let init = departures(old.drop_last(), new);
        if has_title(new, old.last().title) {
            init
        } else {
            init.push(UpdateView::Removed(old.last()))
        }
    }
}

/// The changes from listing `old` to listing `new`, rewards matched by title.
pub open spec fn changes(old: Seq<RewardView>, new: Seq<RewardView>) -> Seq<UpdateView> {
    arrivals(old, new) + departures(old, new)
}

/// The first reward of `s` titled `title`, as [`first_titled`] states.
fn find_titled<'a>(s: &'a [Reward], title: &String) -> (r: Option<&'a Reward>)
    ensures
        match r {
            Some(o) => first_titled(views(s@), title@) == Some(o@),
            None => first_titled(views(s@), title@) is None,
        },
{
    let ghost v = views(s@);
    let mut i: usize = 0;
    assert(v.subrange(0, v.len() as int) == v);
    while i < s.len()
        invariant
            v == views(s@),
            i <= s@.len(),
            first_titled(v, title@) == first_titled(v.subrange(i as int, v.len() as int), title@),
        decreases s@.len() - i,
    {
        let ghost rest = v.subrange(i as int, v.len() as int);
        assert(rest.drop_first() == v.subrange(i + 1, v.len() as int));
        assert(rest[0] == s@[i as int]@);
        if s[i].title == *title {
            return Some(&s[i]);
        }
        i = i + 1;
    }
    None
}

/// Whether some reward of `s` is titled `title`.
fn any_titled(s: &[Reward], title: &String) -> (r: bool)
    ensures
        r == has_title(views(s@), title@),
{
    let mut i: usize = 0;
    while i < s.len()
        invariant
            i <= s@.len(),
            forall|k: int| 0 <= k < i ==> s@[k].title@ != title@,
        decreases s@.len() - i,
    {
        if s[i].title == *title {
            assert(views(s@)[i as int].title == title@);
            return true;
        }
        i = i + 1;
    }
    assert forall|k: int| 0 <= k < views(s@).len() implies (#[trigger] views(s@)[k]).title != title@ by {
        assert(views(s@)[k] == s@[k]@);
    }
    false
}

/// The changes from listing `old` to listing `new`, as [`changes`] states.
pub fn compare(old: &[Reward], new: &[Reward]) -> (r: Vec<RewardUpdate>)
    ensures
        views(r@) == changes(views(old@), views(new@)),
{
    let ghost o = views(old@);
    let ghost n = views(new@);
    let mut updates: Vec<RewardUpdate> = Vec::new();
    let mut i: usize = 0;
    assert(views(updates@) =~= arrivals(o, n.subrange(0, 0)));
    while i < new.len()
        invariant
            o == views(old@),
            n == views(new@),
            i <= new@.len(),
            views(updates@) == arrivals(o, n.subrange(0, i as int)),
        decreases new@.len() - i,
    {
        let item = &new[i];
        assert(n.subrange(0, i + 1).drop_last() == n.subrange(0, i as int));
        assert(n.subrange(0, i + 1).last() == item@);
        let ghost prev = updates@;
        match find_titled(old, &item.title) {
            Some(old_item) => {
                if !old_item.same_as(item) {
                    updates.push(RewardUpdate::Updated { old: old_item.duplicate(), new: item.duplicate() });
                    assert(views(updates@) =~= views(prev).push(update_for(o, item@)->Some_0));
                }
            },
            None => {
                updates.push(RewardUpdate::New(item.duplicate()));
                assert(views(updates@) =~= views(prev).push(update_for(o, item@)->Some_0));
            },
        }
        i = i + 1;
    }
    assert(n.subrange(0, n.len() as int) == n);
    let ghost arrived = views(updates@);
    let mut k: usize = 0;
    assert(arrived + departures(o.subrange(0, 0), n) =~= arrived);
    while k < old.len()
        invariant
            o == views(old@),
            n == views(new@),
            k <= old@.len(),
            views(updates@) == arrived + departures(o.subrange(0, k as int), n),
        decreases old@.len() - k,
    {
        let item = &old[k];
        assert(o.subrange(0, k + 1).drop_last() == o.subrange(0, k as int));
        assert(o.subrange(0, k + 1).last() == item@);
        let ghost prev = updates@;
        if !any_titled(new, &item.title) {
            updates.push(RewardUpdate::Removed(item.duplicate()));
            assert(views(updates@) =~= views(prev).push(UpdateView::Removed(item@)));
        }
        k = k + 1;
    }
    assert(o.subrange(0, o.len() as int) == o);
    updates
}

/// Which kind of change an update is: 0 new, 1 updated, 2 removed.
pub open spec fn tag_of(u: UpdateView) -> nat {
    match u {
        UpdateView::New(_) => 0,
        UpdateView::Updated { .. } => 1,
        UpdateView::Removed(_) => 2,
    }
}

/// The titles of the updates of kind `tag`, in order.
pub open spec fn names_tagged(us: Seq<UpdateView>, tag: nat) -> Seq<Seq<char>>
    decreases us.len(),
{
    if us.len() == 0 {
        Seq::empty()
    } else {
        let init = names_tagged(us.drop_last(), tag);
        if tag_of(us.last()) == tag {
            init.push(item_of(us.last()).title)
        } else {
            init
        }
    }
}

/// The line for one kind of change: `label` and the titles, or nothing
/// when there are none.
pub open spec fn summary_line(label: Seq<char>, names: Seq<Seq<char>>) -> Seq<Seq<char>> {
    if names.len() == 0 {
        Seq::empty()
    } else {
        seq![label + join(names, ", "@)]
    }
}

/// The one-line summary of `us`: the new, updated and removed titles,
/// each kind that occurs under its label, kinds separated by ` · `.
pub open spec fn notification_of(us: Seq<UpdateView>) -> Seq<char> {
    trimmed(
        join(
            summary_line("New items: "@, names_tagged(us, 0)) + summary_line(
                "Updated items: "@,
                names_tagged(us, 1),
            ) + summary_line("Removed items: "@, names_tagged(us, 2)),
            " · "@,
        ),
    )
}

impl RewardUpdate {
    /// Which kind of change this is, as [`tag_of`] numbers it.
    fn tag(&self) -> (r: u8)
        ensures
            r as nat == tag_of(self@),
    {
        match self {
            RewardUpdate::New(_) => 0,
            RewardUpdate::Updated { .. } => 1,
            RewardUpdate::Removed(_) => 2,
        }
    }
}

/// The titles of the updates of kind `tag`, as [`names_tagged`] states.
fn titles_tagged(updates: &[RewardUpdate], tag: u8) -> (r: Vec<String>)
    ensures
        texts(r@) == names_tagged(views(updates@), tag as nat),
{
    let ghost us = views(updates@);
    let mut out: Vec<String> = Vec::new();
    let mut i: usize = 0;
    assert(texts(out@) =~= names_tagged(us.subrange(0, 0), tag as nat));
    while i < updates.len()
        invariant
            us == views(updates@),
            i <= updates@.len(),
            texts(out@) == names_tagged(us.subrange(0, i as int), tag as nat),
        decreases updates@.len() - i,
    {
        assert(us.subrange(0, i + 1).drop_last() == us.subrange(0, i as int));
        assert(us.subrange(0, i + 1).last() == updates@[i as int]@);
        let ghost prev = out@;
        if updates[i].tag() == tag {
            out.push(String::from_str(updates[i].item_name()));
            assert(texts(out@) =~= texts(prev).push(item_of(updates@[i as int]@).title));
        }
        i = i + 1;
    }
    assert(us.subrange(0, us.len() as int) == us);
    out
}

/// Appends the line for one kind of change to `lines`, as [`summary_line`]
/// states.
fn push_summary_line(lines: &mut Vec<String>, label: &str, names: &Vec<String>)
    ensures
        texts(final(lines)@) == texts(old(lines)@) + summary_line(label@, texts(names@)),
{
    if names.len() == 0 {
        assert(texts(lines@) =~= texts(lines@) + summary_line(label@, texts(names@)));
    } else {
        let mut line = String::from_str(label);
        let list = joined(names, ", ");
        line.append(list.as_str());
        let ghost prev = lines@;
        lines.push(line);
        assert(texts(lines@) =~= texts(prev) + summary_line(label@, texts(names@)));
    }
}

/// The one-line summary of `updates`, as [`notification_of`] states.
pub fn create_notification_text(updates: &[RewardUpdate]) -> (r: String)
    ensures
        r@ == notification_of(views(updates@)),
{
    let mut lines: Vec<String> = Vec::new();
    assert(texts(lines@) =~= Seq::<Seq<char>>::empty());
    push_summary_line(&mut lines, "New items: ", &titles_tagged(updates, 0));
    push_summary_line(&mut lines, "Updated items: ", &titles_tagged(updates, 1));
    push_summary_line(&mut lines, "Removed items: ", &titles_tagged(updates, 2));
    let all = joined(&lines, " · ");
    assert(texts(lines@) =~= summary_line("New items: "@, names_tagged(views(updates@), 0))
        + summary_line("Updated items: "@, names_tagged(views(updates@), 1))
        + summary_line("Removed items: "@, names_tagged(views(updates@), 2)));
    trim(all.as_str())
}

/// The price shown for an update: `old → new` when the token count
/// changed, the count alone otherwise.
pub open spec fn token_text_of(u: UpdateView) -> Seq<char> {
    match u {
        UpdateView::Updated { old, new } => if old.tokens != new.tokens {
            decimal(old.tokens as nat) + " → "@ + decimal(new.tokens as nat)
        } else {
            decimal(new.tokens as nat)
        },
        _ => decimal(item_of(u).tokens as nat),
    }
}

/// A description as shown beside another: `_no description_` when empty.
pub open spec fn shown_description(d: Seq<char>) -> Seq<char> {
    if d.len() == 0 {
        "_no description_"@
    } else {
        d
    }
}

/// The description shown for an update: `old → new` when it changed, the
/// description alone otherwise.
pub open spec fn description_text_of(u: UpdateView) -> Seq<char> {
    match u {
        UpdateView::Updated { old, new } => if old.description != new.description {
            shown_description(old.description) + " → "@ + shown_description(new.description)
        } else {
            new.description
        },
        _ => item_of(u).description,
    }
}

/// The heading shown for an update: emoji, title and price.
pub open spec fn header_text_of(u: UpdateView) -> Seq<char> {
    emoji_of(u) + " Reward: "@ + item_of(u).title + " (:coin: "@ + token_text_of(u) + ")"@
}

impl RewardUpdate {
    /// The price shown for this update, as [`token_text_of`] states.
    pub fn token_text(&self) -> (r: String)
        ensures
            r@ == token_text_of(self@),
    {
        let item = self.item();
        match self.old_item() {
            Some(old) => {
                if old.tokens != item.tokens {
                    let mut out = decimal_text(old.tokens);
                    out.append(" → ");
                    out.append(decimal_text(item.tokens).as_str());
                    return out;
                }
            },
            None => {},
        }
        decimal_text(item.tokens)
    }

    /// The description shown for this update, as [`description_text_of`]
    /// states.
    pub fn description_text(&self) -> (r: String)
        ensures
            r@ == description_text_of(self@),
    {
        let item = self.item();
        match self.old_item() {
            Some(old) => {
                if old.description != item.description {
                    let mut out = if old.description.as_str().is_empty() {
                        String::from_str("_no description_")
                    } else {
                        old.description.clone()
                    };
                    out.append(" → ");
                    if item.description.as_str().is_empty() {
                        out.append("_no description_");
                    } else {
                        out.append(item.description.as_str());
                    }
                    return out;
                }
            },
            None => {},
        }
        item.description.clone()
    }

    /// The heading shown for this update, as [`header_text_of`] states.
    pub fn header_text(&self) -> (r: String)
        ensures
            r@ == header_text_of(self@),
    {
        let mut out = String::from_str(self.emoji());
        out.append(" Reward: ");
        out.append(self.item_name());
        out.append(" (:coin: ");
        out.append(self.token_text().as_str());
        out.append(")");
        out
    }

    /// The former image of an updated reward whose image changed.
    pub fn old_image_url(&self) -> (r: Option<&String>)
        ensures
            match self@ {
                UpdateView::Updated { old, new } => if old.image_url != new.image_url {
                    r matches Some(u) && u@ == old.image_url
                } else {
                    r is None
                },
                _ => r is None,
            },
    {
        let item = self.item();
        match self.old_item() {
            Some(old) => {
                if old.image_url != item.image_url {
                    Some(&old.image_url)
                } else {
                    None
                }
            },
            None => None,
        }
    }
}

/// A mention of a chat user group, added to each notification.
pub struct UsergroupPing {
    pub usergroup_id: String,
}

/// The text of a ping of user group `id`, linking `repository`.
pub open spec fn ping_text_of(id: Seq<char>, repository: Seq<char>) -> Seq<char> {
    "pinging <!subteam^"@ + id + "> · <"@ + repository + "|>"@
}

impl UsergroupPing {
    /// The ping of the user group `usergroup_id`, when one is configured.
    pub fn new(usergroup_id: Option<String>) -> (r: Option<UsergroupPing>)
        ensures
            match usergroup_id {
                Some(id) => r matches Some(p) && p.usergroup_id@ == id@,
                None => r is None,
            },
    {
        match usergroup_id {
            Some(usergroup_id) => Some(UsergroupPing { usergroup_id }),
            None => None,
        }
    }

    /// The text of this ping, linking `repository`, as [`ping_text_of`]
    /// states.
    pub fn ping_text(&self, repository: &str) -> (r: String)
        ensures
            r@ == ping_text_of(self.usergroup_id@, repository@),
    {
        let mut out = String::from_str("pinging <!subteam^");
        out.append(self.usergroup_id.as_str());
        out.append("> · <");
        out.append(repository);
        out.append("|>");
        out
    }
}

} // verus!
