use vstd::prelude::*;

use crate::event::{same_text, Event, TagsView};
use crate::text::{chars_of, parse_u64, parse_u64_spec};

verus! {

/// The value of a tag: its second element, or empty where it has none.
pub open spec fn value_of(tag: Seq<Seq<char>>) -> Seq<char> {
    if tag.len() > 1 {
        tag[1]
    } else {
        Seq::empty()
    }
}

/// The value of the last tag named `name` among the first `n`.
pub open spec fn last_value(tags: TagsView, name: Seq<char>, n: int) -> Option<Seq<char>>
    decreases n,
{
    if n <= 0 || n > tags.len() {
        None
    } else if tags[n - 1].len() > 0 && tags[n - 1][0] == name {
        Some(value_of(tags[n - 1]))
    } else {
        last_value(tags, name, n - 1)
    }
}

/// The non-empty values of the `t` tags among the first `n`, in order.
pub open spec fn hashtags_spec(tags: TagsView, n: int) -> Seq<Seq<char>>
    decreases n,
{
    if n <= 0 || n > tags.len() {
        Seq::empty()
    } else if tags[n - 1].len() > 0 && tags[n - 1][0] == "t"@ && value_of(tags[n - 1]).len() > 0 {
        hashtags_spec(tags, n - 1).push(value_of(tags[n - 1]))
    } else {
        hashtags_spec(tags, n - 1)
    }
}

/// A long-form article read from its event's tags.
pub struct Article {
    pub id: String,
    pub pubkey: String,
    pub title: String,
    pub content: String,
    pub image: Option<String>,
    pub summary: Option<String>,
    pub d_tag: String,
    pub published_at: u64,
    pub created_at: u64,
    pub hashtags: Vec<String>,
}

/// An article's fields: where a tag comes more than once the last one
/// counts; the publication time is the last `published_at` tag's number, or
/// the creation time where that does not read as one.
pub open spec fn article_ok(e: Event, a: Article) -> bool {
    let tags = e.tags_view();
    let n = tags.len() as int;
    let published = match last_value(tags, "published_at"@, n) {
        Some(v) => parse_u64_spec(v),
        None => None,
    };
    &&& a.id@ == e.id@
    &&& a.pubkey@ == e.pubkey@
    &&& a.content@ == e.content@
    &&& a.created_at == e.created_at
    &&& a.title@ == match last_value(tags, "title"@, n) {
        Some(v) => v,
        None => Seq::empty(),
    }
    &&& a.d_tag@ == match last_value(tags, "d"@, n) {
        Some(v) => v,
        None => Seq::empty(),
    }
    &&& a.image.deep_view() == last_value(tags, "image"@, n)
    &&& a.summary.deep_view() == last_value(tags, "summary"@, n)
    &&& a.published_at == match published {
        Some(p) => p,
        None => e.created_at,
    }
    &&& a.hashtags.deep_view() == hashtags_spec(tags, n)
}

fn tag_value(tag: &Vec<String>) -> (r: String)
    ensures
        r@ == value_of(tag.deep_view()),
{
    if tag.len() > 1 {
        tag[1].clone()
    } else {
        String::new()
    }
}

/// Reads an article from its event.
pub fn article_of(e: &Event) -> (r: Article)
    ensures
        article_ok(*e, r),
{
    let ghost t = e.tags_view();
    let mut title: Option<String> = None;
    let mut d_tag: Option<String> = None;
    let mut image: Option<String> = None;
    let mut summary: Option<String> = None;
    let mut published: Option<String> = None;
    let mut hashtags: Vec<String> = Vec::new();
    let mut i: usize = 0;
    while i < e.tags.len()
        invariant
            t == e.tags_view(),
            i <= e.tags.len(),
            title.deep_view() == last_value(t, "title"@, i as int),
            d_tag.deep_view() == last_value(t, "d"@, i as int),
            image.deep_view() == last_value(t, "image"@, i as int),
            summary.deep_view() == last_value(t, "summary"@, i as int),
            published.deep_view() == last_value(t, "published_at"@, i as int),
            hashtags.deep_view() == hashtags_spec(t, i as int),
        decreases e.tags.len() - i,
    {
        let tag = &e.tags[i];
        assert(t[i as int] == tag.deep_view());
        proof {
            reveal_strlit("d");
            reveal_strlit("title");
            reveal_strlit("image");
            reveal_strlit("summary");
            reveal_strlit("published_at");
            reveal_strlit("t");
            assert("title"@[0] != "image"@[0]);
            assert("d"@[0] != "t"@[0]);
            assert("d"@.len() == 1 && "t"@.len() == 1 && "title"@.len() == 5 && "image"@.len() == 5);
            assert("summary"@.len() == 7 && "published_at"@.len() == 12);
        }
        if tag.len() > 0 {
            let v = tag_value(tag);
            let name = &tag[0];
            if same_text(name, "d") {
                d_tag = Some(v);
            } else if same_text(name, "title") {
                title = Some(v);
            } else if same_text(name, "image") {
                image = Some(v);
            } else if same_text(name, "summary") {
                summary = Some(v);
            } else if same_text(name, "published_at") {
                published = Some(v);
            } else if same_text(name, "t") {
                if v.as_str().unicode_len() > 0 {
                    let ghost prev = hashtags.deep_view();
                    hashtags.push(v);
                    assert(hashtags.deep_view() =~= prev.push(value_of(t[i as int])));
                }
            }
        }
        i += 1;
    }
    let published_at = match published {
        Some(v) => match parse_u64(&chars_of(v.as_str())) {
            Some(p) => p,
            None => e.created_at,
        },
        None => e.created_at,
    };
    Article {
        id: e.id.clone(),
        pubkey: e.pubkey.clone(),
        title: match title {
            Some(x) => x,
            None => String::new(),
        },
        content: e.content.clone(),
        image,
        summary,
        d_tag: match d_tag {
            Some(x) => x,
            None => String::new(),
        },
        published_at,
        created_at: e.created_at,
        hashtags,
    }
}

} // verus!
