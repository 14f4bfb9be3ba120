//! Site records: one crawled page with the links found on it, and the
//! columns it is stored as.

use crate::clock::Timestamp;
use crate::error::Errors;
use crate::text::{
    collapsed, comma_free, decimal, decimal_text, doubled, escape_quotes, is_trimmed, join_commas, joined,
    lemma_collapsed_doubled, lemma_doubled_empty, lemma_split_joined, lemma_trimmed_fixed,
    push_decimal, split,
    split_commas, trim, trimmed, unescape_quotes,
};
use crate::url_set::UrlSet;
use vstd::prelude::*;
use vstd::string::StringExecFns;

verus! {

/// Creates the table of site records unless it exists.
pub const SITES_SCHEMA: &'static str =
    "CREATE TABLE IF NOT EXISTS sites (url TEXT PRIMARY KEY, crawl_time TEXT NOT NULL, links_to TEXT);";

/// Selects the columns of the site record stored under the bound key.
pub const SITES_SELECT: &'static str = "SELECT url, crawl_time, links_to FROM sites WHERE url = ?";

/// Stores the three bound columns as a site record, in place of any record
/// with the same key.
pub const SITES_UPSERT: &'static str =
    "INSERT OR REPLACE INTO sites (url, crawl_time, links_to) VALUES (?, ?, ?)";

/// Counts the site records.
pub const SITES_COUNT: &'static str = "SELECT COUNT(*) FROM sites";

/// A crawled page.
#[derive(Debug)]
pub struct Site {
    /// The page's URL, scheme included.
    pub url: String,
    /// When the page was last fetched.
    pub crawl_time: Timestamp,
    /// The normalised URLs the page links to.
    pub links_to: UrlSet,
}

/// A site record as stored: the text of each column.
#[derive(Debug)]
pub struct SiteRow {
    pub url: String,
    pub crawl_time: String,
    pub links_to: String,
}

/// What a site record says: its URL, its time and its set of links.
pub struct SiteView {
    pub url: Seq<char>,
    pub crawl_time: Timestamp,
    pub links_to: Set<Seq<char>>,
}

/// What a stored site record holds, column by column.
pub struct SiteRowView {
    pub url: Seq<char>,
    pub crawl_time: Seq<char>,
    pub links_to: Seq<char>,
}

impl View for Site {
    type V = SiteView;

    open spec fn view(&self) -> SiteView {
        SiteView { url: self.url@, crawl_time: self.crawl_time, links_to: self.links_to@ }
    }
}

impl View for SiteRow {
    type V = SiteRowView;

    open spec fn view(&self) -> SiteRowView {
        SiteRowView { url: self.url@, crawl_time: self.crawl_time@, links_to: self.links_to@ }
    }
}

/// The stored column for a list of links: the links joined by commas, with
/// single quotes doubled.
pub open spec fn links_column(links: Seq<Seq<char>>) -> Seq<char> {
    doubled(joined(links))
}

/// The links that a stored column lists, in its order: none for an empty
/// column, else the trimmed pieces between the commas of the column with
/// its doubled quotes collapsed.
pub open spec fn column_links(column: Seq<char>) -> Seq<Seq<char>> {
    if column.len() == 0 {
        Seq::empty()
    } else {
        split(collapsed(column)).map_values(|piece: Seq<char>| trimmed(piece))
    }
}

/// Whether a list of links survives storage unchanged: no member holds a
/// comma or begins or ends with white space, and the list is not the single
/// empty string, which is stored like the empty list.
pub open spec fn storable_links(links: Seq<Seq<char>>) -> bool {
    &&& forall|i: int| 0 <= i < links.len() ==> comma_free(#[trigger] links[i])
    &&& forall|i: int| 0 <= i < links.len() ==> is_trimmed(#[trigger] links[i])
    &&& !(links.len() == 1 && links[0].len() == 0)
}

/// Reading a column written from a list of links gives the list back,
/// for every storable list.
pub proof fn lemma_links_round_trip(links: Seq<Seq<char>>)
    requires
        storable_links(links),
    ensures
        column_links(links_column(links)) == links,
{
    let text = joined(links);
    lemma_collapsed_doubled(text);
    lemma_doubled_empty(text);
    if links.len() == 0 {
    } else {
        lemma_joined_empty(links);
        lemma_split_joined(links);
        let read = column_links(links_column(links));
        assert(read.len() == links.len());
        assert forall|i: int| 0 <= i < links.len() implies read[i] == links[i] by {
            lemma_trimmed_fixed(links[i]);
        }
        assert(read =~= links);
    }
}

/// A join is empty only for the empty list and for the single empty string.
pub proof fn lemma_joined_empty(links: Seq<Seq<char>>)
    ensures
        joined(links).len() == 0 <==> (links.len() == 0 || (links.len() == 1 && links[0].len()
            == 0)),
{
}

/// Writes a set of links as a stored column.
pub fn write_links(links: &UrlSet) -> (column: String)
    ensures
        column@ == links_column(links.items()),
{
    let list = links.to_vec();
    let text = join_commas(&list);
    escape_quotes(text.as_str())
}

/// Reads the set of links that a stored column lists.
pub fn read_links(column: &str) -> (links: UrlSet)
    ensures
        links.wf(),
        links@ == column_links(column@).to_set(),
{
    if column.unicode_len() == 0 {
        return UrlSet::new();
    }
    let text = unescape_quotes(column);
    let pieces = split_commas(text.as_str());
    let mut links = UrlSet::new();
    let mut i: usize = 0;
    let ghost all = column_links(column@);
    assert(all.len() == pieces@.len());
    assert(all.take(0) =~= Seq::<Seq<char>>::empty());
    while i < pieces.len()
        invariant
            i <= pieces.len(),
            all.len() == pieces@.len(),
            forall|k: int| 0 <= k < all.len() ==> all[k] == trimmed(#[trigger] pieces@[k]@),
            links.wf(),
            links@ == all.take(i as int).to_set(),
        decreases pieces.len() - i,
    {
        let link = trim(pieces[i].as_str());
        proof {
            assert(all.take(i as int + 1) =~= all.take(i as int).push(link@));
            all.take(i as int).lemma_push_to_set_commute(link@);
        }
        links.insert(link);
        i += 1;
    }
    assert(all.take(i as int) =~= all);
    links
}

impl Site {
    /// Whether the record is sound: its set of links is.
    pub open spec fn wf(&self) -> bool {
        self.links_to.wf()
    }

    /// The key under which the record of `url` is stored.
    pub open spec fn key_spec(url: Seq<char>) -> Seq<char> {
        doubled(url)
    }

    /// The columns that the record is stored as, given the text of its time.
    pub open spec fn row_spec(&self, time_text: Seq<char>) -> SiteRowView {
        SiteRowView {
            url: doubled(self.url@),
            crawl_time: time_text,
            links_to: links_column(self.links_to.items()),
        }
    }

    /// The record that a stored row holds, or `None` where its time column
    /// is not a time.
    pub open spec fn of_row(row: SiteRowView) -> Option<SiteView> {
        match Timestamp::of_text(row.crawl_time) {
            Some(t) => Some(
                SiteView {
                    url: collapsed(row.url),
                    crawl_time: t,
                    links_to: column_links(row.links_to).to_set(),
                },
            ),
            None => None,
        }
    }

    /// The key under which the record of `url` is stored and looked up.
    pub fn key(url: &str) -> (k: String)
        ensures
            k@ == Site::key_spec(url@),
    {
        escape_quotes(url)
    }

    /// Decodes what the store returned for a key: no record where there was
    /// no row, the record where the row decodes, and an encoding error where
    /// its time column is not RFC 3339.
    pub fn read_into(row: Option<SiteRow>) -> (r: Result<Option<Site>, Errors>)
        ensures
            match r {
                Ok(None) => row.is_none(),
                Ok(Some(site)) => row.is_some() && site.wf() && Site::of_row(row.unwrap()@) == Some(
                    site@,
                ),
                Err(Errors::EncodingError(_)) => row.is_some() && Site::of_row(
                    row.unwrap()@,
                ).is_none(),
                Err(_) => false,
            },
    {
        match row {
            None => Ok(None),
            Some(row) => {
                match Timestamp::parse_from_rfc3339(row.crawl_time.as_str()) {
                    None => Err(
                        Errors::EncodingError(
                            String::from_str("Failed to parse crawl_time as RFC 3339"),
                        ),
                    ),
                    Some(crawl_time) => {
                        let url = unescape_quotes(row.url.as_str());
                        let links_to = read_links(row.links_to.as_str());
                        Ok(Some(Site { url, crawl_time, links_to }))
                    },
                }
            },
        }
    }

    /// Encodes the record as the row to store under `Site::key` of its URL:
    /// quotes doubled, the time as RFC 3339, the links joined by commas.
    /// A time whose text would not read back as that time gives a database
    /// error, and nothing is to be stored.
    pub fn write_into(&self) -> (r: Result<SiteRow, Errors>)
        ensures
            match r {
                Ok(row) => self.crawl_time.storable() && row@ == self.row_spec(
                    self.crawl_time.text().unwrap(),
                ),
                Err(Errors::DatabaseError(_)) => !self.crawl_time.storable(),
                Err(_) => false,
            },
            self.wf() && storable_links(self.links_to.items()) ==> (r matches Ok(row)
                ==> Site::of_row(row@) == Some(self@)),
    {
        proof {
            if self.wf() && storable_links(self.links_to.items()) && self.crawl_time.storable() {
                self.lemma_round_trip();
            }
        }
        match self.crawl_time.stored_text() {
            None => Err(
                Errors::DatabaseError(String::from_str("crawl_time cannot be stored")),
            ),
            Some(crawl_time) => Ok(
                SiteRow {
                    url: escape_quotes(self.url.as_str()),
                    crawl_time,
                    links_to: write_links(&self.links_to),
                },
            ),
        }
    }

    /// The record in a line: its URL, then the number of its links in
    /// round brackets.
    pub open spec fn describe_spec(&self) -> Seq<char> {
        self.url@ + " ("@ + decimal(self.links_to.items().len() as int) + ")"@
    }

    /// The record in a line: its URL, then the number of its links in
    /// round brackets.
    pub fn describe(&self) -> (line: String)
        ensures
            line@ == self.describe_spec(),
    {
        let mut line = self.url.clone();
        line.append(" (");
        let n = self.links_to.len();
        let mut digits = String::new();
        push_decimal(&mut digits, n as u64);
        line.append(digits.as_str());
        line.append(")");
        line
    }

    /// The line that reports how many records the site table holds.
    pub open spec fn summary_spec(count: int) -> Seq<char> {
        decimal(count) + " Entries in site table"@
    }

    /// The line that reports the number of site records, given the count
    /// that the store returned for it.
    pub fn summarize_site_table(count: i64) -> (line: String)
        ensures
            line@ == Site::summary_spec(count as int),
    {
        decimal_text(count).concat(" Entries in site table")
    }

    /// Reading back a written record gives the record: its URL, its time
    /// and its set of links. This holds for every record that `write_into`
    /// accepts and whose links are storable.
    pub proof fn lemma_round_trip(&self)
        requires
            self.wf(),
            storable_links(self.links_to.items()),
            self.crawl_time.storable(),
        ensures
            Site::of_row(self.row_spec(self.crawl_time.text().unwrap())) == Some(self@),
    {
        lemma_collapsed_doubled(self.url@);
        lemma_links_round_trip(self.links_to.items());
    }
}

} // verus!
