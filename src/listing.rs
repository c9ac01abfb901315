//! Reading the rewards off the shop's HTML listing page.
use vstd::prelude::*;
use crate::literal::{parse_u8, u8_of};
use crate::records::views;
use crate::updates::{Reward, RewardView};
use crate::web::{child_attributes, child_attributes_of, child_texts, child_texts_of, opt_texts, parse_url, url_serialization};

verus! {

/// Why the listing page could not be read.
#[derive(Clone, Copy, Debug, PartialEq, Eq, Structural)]
pub enum ListingError {
    /// A selector of the page layout does not parse.
    SelectorInvalid,
    /// The queries of one page disagree on how many cards it lists.
    Misaligned,
    /// A card has no image with a source.
    ImageMissing,
    /// A card has no title.
    TitleMissing,
    /// A card has no description.
    DescriptionMissing,
    /// A card has no price.
    PriceMissing,
    /// A card's price does not begin with a token count that is a byte.
    PriceInvalid,
    /// A card's image source is no URL.
    ImageUrlInvalid,
}

/// The text of `s` up to its first space, or all of it.
pub open spec fn first_word(s: Seq<char>) -> Seq<char>
    decreases s.len(),
{
    if s.len() == 0 || s[0] == ' ' {
        Seq::empty()
    } else {
        seq![s[0]] + first_word(s.drop_first())
    }
}

/// The text of `s` up to its first space, as [`first_word`] states.
pub fn first_word_of(s: &str) -> (r: &str)
    ensures
        r@ == first_word(s@),
{
    let n = s.unicode_len();
    let mut i: usize = 0;
    assert(s@.subrange(0, 0) + first_word(s@.subrange(0, n as int)) == first_word(s@)) by {
        assert(s@.subrange(0, n as int) == s@);
        assert(s@.subrange(0, 0) + first_word(s@) =~= first_word(s@));
    }
    while i < n && s.get_char(i) != ' '
        invariant
            n == s@.len(),
            i <= n,
            s@.subrange(0, i as int) + first_word(s@.subrange(i as int, n as int)) == first_word(s@),
        decreases n - i,
    {
        let ghost rest = s@.subrange(i as int, n as int);
        assert(rest.drop_first() == s@.subrange(i + 1, n as int));
        assert(s@.subrange(0, i + 1) == s@.subrange(0, i as int) + seq![s@[i as int]]);
        assert(s@.subrange(0, i + 1) + first_word(s@.subrange(i + 1, n as int)) =~= s@.subrange(0, i as int) + (seq![rest[0]] + first_word(rest.drop_first())));
        i = i + 1;
    }
    assert(first_word(s@.subrange(i as int, n as int)) =~= Seq::<char>::empty());
    assert(s@.subrange(0, i as int) + Seq::<char>::empty() =~= s@.subrange(0, i as int));
    s.substring_char(0, i)
}

/// The reward a card describes, from its image source, title, description
/// and price text; or the first of them that is missing or malformed.
pub open spec fn card_of(
    image: Option<Seq<char>>,
    title: Option<Seq<char>>,
    description: Option<Seq<char>>,
    price: Option<Seq<char>>,
) -> Result<RewardView, ListingError> {
    match (image, title, description, price) {
        (None, _, _, _) => Err(ListingError::ImageMissing),
        (_, None, _, _) => Err(ListingError::TitleMissing),
        (_, _, None, _) => Err(ListingError::DescriptionMissing),
        (_, _, _, None) => Err(ListingError::PriceMissing),
        (Some(i), Some(t), Some(d), Some(p)) => match u8_of(first_word(p)) {
            None => Err(ListingError::PriceInvalid),
            Some(tokens) => match url_serialization(i) {
                None => Err(ListingError::ImageUrlInvalid),
                Some(u) => Ok(RewardView { title: t, description: d, tokens, image_url: u }),
            },
        },
    }
}

/// The rewards of the first `n` cards, or the failure of the first card
/// that fails.
pub open spec fn cards_of(
    images: Seq<Option<Seq<char>>>,
    titles: Seq<Option<Seq<char>>>,
    descriptions: Seq<Option<Seq<char>>>,
    prices: Seq<Option<Seq<char>>>,
    n: int,
) -> Result<Seq<RewardView>, ListingError>
    decreases n,
{
    if n <= 0 {
        Ok(Seq::empty())
    } else {
        match cards_of(images, titles, descriptions, prices, n - 1) {
            Err(e) => Err(e),
            Ok(s) => match card_of(images[n - 1], titles[n - 1], descriptions[n - 1], prices[n - 1]) {
                Err(e) => Err(e),
                Ok(r) => Ok(s.push(r)),
            },
        }
    }
}

/// The rewards the listing page `html` shows: one per card of its reward
/// list, in page order.
pub open spec fn listing_of(html: Seq<char>) -> Result<Seq<RewardView>, ListingError> {
    let items = "body > div > div > main > div > ul > div"@;
    match (
        child_attributes_of(html, items, "img"@, "src"@),
        child_texts_of(html, items, "h3"@),
        child_texts_of(html, items, "p"@),
        child_texts_of(html, items, "div > span"@),
    ) {
        (Some(i), Some(t), Some(d), Some(p)) => if i.len() == t.len() && i.len() == d.len() && i.len()
            == p.len() {
            cards_of(i, t, d, p, i.len() as int)
        } else {
            Err(ListingError::Misaligned)
        },
        _ => Err(ListingError::SelectorInvalid),
    }
}

/// The reward one card describes, as [`card_of`] states.
fn read_card(
    image: &Option<String>,
    title: &Option<String>,
    description: &Option<String>,
    price: &Option<String>,
) -> (r: Result<Reward, ListingError>)
    ensures
        match r {
            Ok(rw) => card_of(opt_texts(seq![*image])[0], opt_texts(seq![*title])[0], opt_texts(seq![*description])[0], opt_texts(seq![*price])[0]) == Ok::<RewardView, ListingError>(rw@),
            Err(e) => card_of(opt_texts(seq![*image])[0], opt_texts(seq![*title])[0], opt_texts(seq![*description])[0], opt_texts(seq![*price])[0]) == Err::<RewardView, ListingError>(e),
        },
{
    let image = match image {
        Some(i) => i,
        None => return Err(ListingError::ImageMissing),
    };
    let title = match title {
        Some(t) => t,
        None => return Err(ListingError::TitleMissing),
    };
    let description = match description {
        Some(d) => d,
        None => return Err(ListingError::DescriptionMissing),
    };
    let price = match price {
        Some(p) => p,
        None => return Err(ListingError::PriceMissing),
    };
    let tokens = match parse_u8(first_word_of(price.as_str())) {
        Some(t) => t,
        None => return Err(ListingError::PriceInvalid),
    };
    let image_url = match parse_url(image.as_str()) {
        Some(u) => u,
        None => return Err(ListingError::ImageUrlInvalid),
    };
    Ok(Reward { title: title.clone(), description: description.clone(), tokens, image_url })
}

/// The rewards of the listing page `html`, as [`listing_of`] states.
pub fn parse_listing(html: &str) -> (r: Result<Vec<Reward>, ListingError>)
    ensures
        match r {
            Ok(v) => listing_of(html@) == Ok::<Seq<RewardView>, ListingError>(views(v@)),
            Err(e) => listing_of(html@) == Err::<Seq<RewardView>, ListingError>(e),
        },
{
    let items = "body > div > div > main > div > ul > div";
    let (images, titles, descriptions, prices) = match (
        child_attributes(html, items, "img", "src"),
        child_texts(html, items, "h3"),
        child_texts(html, items, "p"),
        child_texts(html, items, "div > span"),
    ) {
        (Some(i), Some(t), Some(d), Some(p)) => (i, t, d, p),
        _ => return Err(ListingError::SelectorInvalid),
    };
    let n = images.len();
    if titles.len() != n || descriptions.len() != n || prices.len() != n {
        return Err(ListingError::Misaligned);
    }
    let ghost (ii, tt, dd, pp) = (opt_texts(images@), opt_texts(titles@), opt_texts(descriptions@), opt_texts(prices@));
    assert(listing_of(html@) == cards_of(ii, tt, dd, pp, n as int));
    let mut out: Vec<Reward> = Vec::new();
    let mut k: usize = 0;
    assert(cards_of(ii, tt, dd, pp, 0) == Ok::<Seq<RewardView>, ListingError>(views(out@))) by {
        assert(views(out@) =~= Seq::<RewardView>::empty());
    }
    while k < n
        invariant
            n == images@.len(),
            n == titles@.len(),
            n == descriptions@.len(),
            n == prices@.len(),
            ii == opt_texts(images@),
            tt == opt_texts(titles@),
            dd == opt_texts(descriptions@),
            pp == opt_texts(prices@),
            listing_of(html@) == cards_of(ii, tt, dd, pp, n as int),
            k <= n,
            cards_of(ii, tt, dd, pp, k as int) == Ok::<Seq<RewardView>, ListingError>(views(out@)),
        decreases n - k,
    {
        proof {
            assert(opt_texts(seq![images@[k as int]])[0] == ii[k as int]);
            assert(opt_texts(seq![titles@[k as int]])[0] == tt[k as int]);
            assert(opt_texts(seq![descriptions@[k as int]])[0] == dd[k as int]);
            assert(opt_texts(seq![prices@[k as int]])[0] == pp[k as int]);
        }
        let ghost prev = out@;
        match read_card(&images[k], &titles[k], &descriptions[k], &prices[k]) {
            Ok(rw) => {
                out.push(rw);
                assert(views(out@) =~= views(prev).push(rw@));
            },
            Err(e) => {
                proof {
                    assert(cards_of(ii, tt, dd, pp, k + 1) == Err::<Seq<RewardView>, ListingError>(e));
                    lemma_cards_fail_onward(ii, tt, dd, pp, k as int + 1, n as int);
                    assert(ii.len() == n);
                }
                return Err(e);
            },
        }
        k = k + 1;
    }
    Ok(out)
}

/// Once a card fails, the listing fails with that card's failure.
proof fn lemma_cards_fail_onward(
    images: Seq<Option<Seq<char>>>,
    titles: Seq<Option<Seq<char>>>,
    descriptions: Seq<Option<Seq<char>>>,
    prices: Seq<Option<Seq<char>>>,
    k: int,
    n: int,
)
    requires
        1 <= k <= n,
        cards_of(images, titles, descriptions, prices, k) is Err,
    ensures
        cards_of(images, titles, descriptions, prices, n) == cards_of(images, titles, descriptions, prices, k),
    decreases n - k,
{
    if k < n {
        lemma_cards_fail_onward(images, titles, descriptions, prices, k + 1, n);
    }
}

} // verus!
