//! Chain mirror addresses. A base address may hold one `[a-b]` range, which
//! stands for the addresses with each number from `a` to `b` in its place.
use rand::Rng;
use vstd::prelude::*;

use crate::text::{
    decimal, find_char, first_index_of, parse_u32, parse_u32_spec, split_char, split_spec, views,
};

verus! {

/// A range whose bounds are not numbers in `u32`.
#[derive(Debug, Clone, Copy, PartialEq, Eq)]
pub enum UrlError {
    InvalidRange,
}

/// `prefix` + each number from `start` to `end` + `suffix`.
pub open spec fn expand_spec(prefix: Seq<char>, start: int, end: int, suffix: Seq<char>) -> Seq<
    Seq<char>,
> {
    Seq::new(
        if end >= start { (end - start + 1) as nat } else { 0 },
        |k: int| prefix + decimal((start + k) as nat) + suffix,
    )
}

/// The addresses that `url` stands for, with `l` and `r` around the range.
pub open spec fn parse_url_spec(url: Seq<char>, l: char, r: char) -> Result<Seq<Seq<char>>, UrlError> {
    let whole = seq![url];
    match (first_index_of(url, l), first_index_of(url, r)) {
        (Some(a), Some(b)) => {
            if a + 1 > b {
                Ok(whole)
            } else {
                let parts = split_spec(url.subrange(a + 1, b), '-');
                if parts.len() != 2 {
                    Ok(whole)
                } else {
                    match (parse_u32_spec(parts[0]), parse_u32_spec(parts[1])) {
                        (Some(x), Some(y)) => Ok(
                            expand_spec(url.take(a), x as int, y as int, url.skip(b + 1)),
                        ),
                        _ => Err(UrlError::InvalidRange),
                    }
                }
            }
        },
        _ => Ok(whole),
    }
}

/// The mirror base addresses of the chain API.
pub struct URL {
    urls: Vec<String>,
}

impl View for URL {
    type V = Seq<Seq<char>>;

    closed spec fn view(&self) -> Seq<Seq<char>> {
        views(self.urls@)
    }
}

/// Relies on `rand::Rng::gen_range`: a number below `high`, which it
/// draws afresh on each call.
#[verifier::external_body]
fn random_below(high: usize) -> (r: usize)
    requires
        high > 0,
    ensures
        r < high,
{
    rand::thread_rng().gen_range(0..high)
}

fn expand(prefix: &str, start: u32, end: u32, suffix: &str) -> (r: Vec<String>)
    ensures
        views(r@) == expand_spec(prefix@, start as int, end as int, suffix@),
{
    let mut urls: Vec<String> = Vec::new();
    let mut idx: u64 = start as u64;
    while idx <= end as u64
        invariant
            start <= idx <= end as int + 1 || (idx == start && start > end),
            views(urls@) =~= expand_spec(prefix@, start as int, idx - 1, suffix@),
        decreases end as int + 1 - idx,
    {
        let ghost before = urls@;
        let s = String::from_str(prefix).concat(crate::text::u64_to_decimal(idx).as_str()).concat(
            suffix,
        );
        urls.push(s);
        assert(views(urls@) =~= views(before).push(s@));
        idx = idx + 1;
        assert(views(urls@) =~= expand_spec(prefix@, start as int, idx - 1, suffix@));
    }
    urls
}

impl URL {
    /// The addresses `url` stands for, or an error where its range is not
    /// two numbers.
    fn parse_url(url: &str, left_sep: char, right_sep: char) -> (r: Result<Vec<String>, UrlError>)
        requires
            (left_sep as u32) < 128,
            (right_sep as u32) < 128,
        ensures
            match r {
                Ok(v) => parse_url_spec(url@, left_sep, right_sep) == Ok::<Seq<Seq<char>>, UrlError>(views(v@)),
                Err(e) => parse_url_spec(url@, left_sep, right_sep) == Err::<Seq<Seq<char>>, UrlError>(e),
            },
    {
        let mut origin_urls: Vec<String> = Vec::new();
        origin_urls.push(String::from_str(url));
        assert(views(origin_urls@) =~= seq![url@]);
        let start_at = match find_char(url, left_sep) {
            Some(v) => v,
            None => return Ok(origin_urls),
        };
        let end_at = match find_char(url, right_sep) {
            Some(v) => v,
            None => return Ok(origin_urls),
        };
        if start_at >= end_at {
            return Ok(origin_urls);
        }
        let match_part = url.substring_char(start_at + 1, end_at);
        let parts = split_char(match_part, '-');
        if parts.len() != 2 {
            return Ok(origin_urls);
        }
        assert(parts@[0]@ == views(parts@)[0]);
        assert(parts@[1]@ == views(parts@)[1]);
        let start = match parse_u32(parts[0].as_str()) {
            Some(v) => v,
            None => return Err(UrlError::InvalidRange),
        };
        let end = match parse_u32(parts[1].as_str()) {
            Some(v) => v,
            None => return Err(UrlError::InvalidRange),
        };
        let n = url.unicode_len();
        let prefix = url.substring_char(0, start_at);
        let suffix = url.substring_char(end_at + 1, n);
        assert(prefix@ =~= url@.take(start_at as int));
        assert(suffix@ =~= url@.skip(end_at + 1));
        Ok(expand(prefix, start, end, suffix))
    }

    /// The addresses that `url` stands for, or an error where its range is
    /// not two numbers.
    pub fn parse(url: &str) -> (r: Result<URL, UrlError>)
        ensures
            match r {
                Ok(u) => parse_url_spec(url@, '[', ']') == Ok::<Seq<Seq<char>>, UrlError>(u@),
                Err(e) => parse_url_spec(url@, '[', ']') == Err::<Seq<Seq<char>>, UrlError>(e),
            },
    {
        match URL::parse_url(url, '[', ']') {
            Ok(urls) => Ok(URL { urls }),
            Err(e) => Err(e),
        }
    }

    /// The addresses that `url` stands for.
    pub fn from(url: &str) -> (r: URL)
        requires
            parse_url_spec(url@, '[', ']') is Ok,
        ensures
            parse_url_spec(url@, '[', ']') == Ok::<Seq<Seq<char>>, UrlError>(r@),
    {
        match URL::parse_url(url, '[', ']') {
            Ok(urls) => URL { urls },
            Err(_) => {
                assert(false);
                URL { urls: Vec::new() }
            },
        }
    }

    /// Every address, in order.
    pub fn get_all_urls(&self) -> (r: Vec<String>)
        ensures
            views(r@) == self@,
    {
        let mut out: Vec<String> = Vec::new();
        let mut i: usize = 0;
        while i < self.urls.len()
            invariant
                i <= self.urls@.len(),
                views(out@) =~= self@.take(i as int),
            decreases self.urls@.len() - i,
        {
            let ghost before = out@;
            let s = self.urls[i].clone();
            out.push(s);
            assert(views(out@) =~= views(before).push(s@));
            i = i + 1;
            assert(views(out@) =~= self@.take(i as int));
        }
        assert(self@.take(self.urls@.len() as int) =~= self@);
        out
    }

    fn get_random_url(&self) -> (r: String)
        requires
            self@.len() > 0,
        ensures
            self@.contains(r@),
    {
        let n = random_below(self.urls.len());
        let r = self.urls[n].clone();
        assert(self@[n as int] == r@);
        r
    }

    /// One of the addresses, chosen at random on each call.
    pub fn get_base_url(&self) -> (r: String)
        requires
            self@.len() > 0,
        ensures
            self@.contains(r@),
    {
        self.get_random_url()
    }

    /// One of the addresses, chosen at random, followed by `suffix`.
    pub fn get_url(&self, suffix: &str) -> (r: String)
        requires
            self@.len() > 0,
        ensures
            exists|i: int| 0 <= i < self@.len() && r@ == self@[i] + suffix@,
    {
        let base_url = self.get_base_url();
        let r = base_url.concat(suffix);
        r
    }
}

} // verus!
