//! Domain records: the robots policy last fetched for a host, and the
//! columns it is stored as.

use crate::clock::Timestamp;
use crate::error::Errors;
use crate::text::{collapsed, decimal, decimal_text, doubled, escape_quotes, lemma_collapsed_doubled, unescape_quotes};
use vstd::prelude::*;
use vstd::string::StringExecFns;

verus! {

/// Creates the table of domain records unless it exists.
pub const DOMAINS_SCHEMA: &'static str =
    "CREATE TABLE IF NOT EXISTS domains (domain TEXT PRIMARY KEY, crawl_time TEXT NOT NULL, robots TEXT);";

/// Selects the columns of the domain record stored under the bound key.
pub const DOMAINS_SELECT: &'static str = "SELECT domain, crawl_time, robots FROM domains WHERE domain = ?";

/// Stores the three bound columns as a domain record, in place of any
/// record with the same key.
pub const DOMAINS_UPSERT: &'static str =
    "INSERT OR REPLACE INTO domains (domain, crawl_time, robots) VALUES (?, ?, ?)";

/// Counts the domain records.
pub const DOMAINS_COUNT: &'static str = "SELECT COUNT(*) FROM domains";

/// A host and its robots policy.
#[derive(Debug)]
pub struct Domain {
    /// The host, such as `example.com`.
    pub domain: String,
    /// When the robots file was last fetched.
    pub crawl_time: Timestamp,
    /// The robots file as received; empty if the host gave none.
    pub robots: String,
}

/// A domain record as stored: the text of each column.
#[derive(Debug)]
pub struct DomainRow {
    pub domain: String,
    pub crawl_time: String,
    pub robots: String,
}

/// What a domain record says.
pub struct DomainView {
    pub domain: Seq<char>,
    pub crawl_time: Timestamp,
    pub robots: Seq<char>,
}

/// What a stored domain record holds, column by column.
pub struct DomainRowView {
    pub domain: Seq<char>,
    pub crawl_time: Seq<char>,
    pub robots: Seq<char>,
}

impl View for Domain {
    type V = DomainView;

    open spec fn view(&self) -> DomainView {
        DomainView { domain: self.domain@, crawl_time: self.crawl_time, robots: self.robots@ }
    }
}

impl View for DomainRow {
    type V = DomainRowView;

    open spec fn view(&self) -> DomainRowView {
        DomainRowView { domain: self.domain@, crawl_time: self.crawl_time@, robots: self.robots@ }
    }
}

impl Domain {
    /// The key under which the record of `domain` is stored.
    pub open spec fn key_spec(domain: Seq<char>) -> Seq<char> {
        doubled(domain)
    }

    /// The columns that the record is stored as, given the text of its time.
    pub open spec fn row_spec(&self, time_text: Seq<char>) -> DomainRowView {
        DomainRowView {
            domain: doubled(self.domain@),
            crawl_time: time_text,
            robots: doubled(self.robots@),
        }
    }

    /// The record that a stored row holds, or `None` where its time column
    /// is not a time.
    pub open spec fn of_row(row: DomainRowView) -> Option<DomainView> {
        match Timestamp::of_text(row.crawl_time) {
            Some(t) => Some(
                DomainView {
                    domain: collapsed(row.domain),
                    crawl_time: t,
                    robots: collapsed(row.robots),
                },
            ),
            None => None,
        }
    }

    /// The key under which the record of `domain` is stored and looked up.
    pub fn key(domain: &str) -> (k: String)
        ensures
            k@ == Domain::key_spec(domain@),
    {
        escape_quotes(domain)
    }

    /// Decodes what the store returned for a key: no record where there was
    /// no row, the record where the row decodes, and an encoding error where
    /// its time column is not RFC 3339.
    pub fn read_into(row: Option<DomainRow>) -> (r: Result<Option<Domain>, Errors>)
        ensures
            match r {
                Ok(None) => row.is_none(),
                Ok(Some(domain)) => row.is_some() && Domain::of_row(row.unwrap()@) == Some(
                    domain@,
                ),
                Err(Errors::EncodingError(_)) => row.is_some() && Domain::of_row(
                    row.unwrap()@,
                ).is_none(),
                Err(_) => false,
            },
    {
        match row {
            None => Ok(None),
            Some(row) => {
                match Timestamp::parse_from_rfc3339(row.crawl_time.as_str()) {
                    None => Err(
                        Errors::EncodingError(
                            String::from_str("Failed to parse crawl_time as RFC 3339"),
                        ),
                    ),
                    Some(crawl_time) => {
                        let domain = unescape_quotes(row.domain.as_str());
                        let robots = unescape_quotes(row.robots.as_str());
                        Ok(Some(Domain { domain, crawl_time, robots }))
                    },
                }
            },
        }
    }

    /// Encodes the record as the row to store under `Domain::key` of its
    /// host: quotes doubled, the time as RFC 3339. A time whose text would
    /// not read back as that time gives a database error.
    pub fn write_into(&self) -> (r: Result<DomainRow, Errors>)
        ensures
            match r {
                Ok(row) => self.crawl_time.storable() && row@ == self.row_spec(
                    self.crawl_time.text().unwrap(),
                ),
                Err(Errors::DatabaseError(_)) => !self.crawl_time.storable(),
                Err(_) => false,
            },
            r matches Ok(row) ==> Domain::of_row(row@) == Some(self@),
    {
        proof {
            if self.crawl_time.storable() {
                self.lemma_round_trip();
            }
        }
        match self.crawl_time.stored_text() {
            None => Err(
                Errors::DatabaseError(String::from_str("crawl_time cannot be stored")),
            ),
            Some(crawl_time) => Ok(
                DomainRow {
                    domain: escape_quotes(self.domain.as_str()),
                    crawl_time,
                    robots: escape_quotes(self.robots.as_str()),
                },
            ),
        }
    }

    /// The line that reports how many records the domain table holds.
    pub open spec fn summary_spec(count: int) -> Seq<char> {
        decimal(count) + " Entries in domain table"@
    }

    /// The line that reports the number of domain records, given the count
    /// that the store returned for it.
    pub fn summarize_domain_table(count: i64) -> (line: String)
        ensures
            line@ == Domain::summary_spec(count as int),
    {
        decimal_text(count).concat(" Entries in domain table")
    }

    /// Reading back a written record gives the record, character for
    /// character, whatever quotes and line ends its robots file holds.
    /// This holds for every record that `write_into` accepts.
    pub proof fn lemma_round_trip(&self)
        requires
            self.crawl_time.storable(),
        ensures
            Domain::of_row(self.row_spec(self.crawl_time.text().unwrap())) == Some(self@),
    {
        lemma_collapsed_doubled(self.domain@);
        lemma_collapsed_doubled(self.robots@);
    }
}

} // verus!
