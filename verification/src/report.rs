//! The table of packages that a transaction is about to install: one row per
//! package, ordered by package name.

use crate::ordering::{is_name_order, name_order, texts};
use crate::reconcile::ResolvedRecord;
use vstd::prelude::*;
use vstd::string::*;

verus! {

/// The features that were selected of a package.
#[derive(Debug, Clone, PartialEq, Eq)]
pub struct PackageFeatures {
    pub name: String,
    pub features: Vec<String>,
}

/// One row of the table.
#[derive(Debug, Clone, PartialEq, Eq)]
pub struct TransactionRow {
    /// The name of the package, followed by its selected features in square
    /// brackets where it has any.
    pub package: String,
    pub version: String,
    pub build: String,
    /// The channel as it is shown: without scheme and trailing slashes.
    pub channel: String,
    /// The size of the archive in bytes, where known.
    pub size: Option<u64>,
}

/// What a row says.
pub struct RowModel {
    pub package: Seq<char>,
    pub version: Seq<char>,
    pub build: Seq<char>,
    pub channel: Seq<char>,
    pub size: Option<u64>,
}

impl View for TransactionRow {
    type V = RowModel;

    open spec fn view(&self) -> RowModel {
        RowModel {
            package: self.package@,
            version: self.version@,
            build: self.build@,
            channel: self.channel@,
            size: self.size,
        }
    }
}

/// Where `://` first occurs in `text`, or -1.
pub open spec fn scheme_separator(text: Seq<char>) -> int
    decreases text.len(),
{
    if text.len() < 3 {
        -1
    } else if text[0] == ':' && text[1] == '/' && text[2] == '/' {
        0
    } else {
        let later = scheme_separator(text.drop_first());
        if later < 0 {
            -1
        } else {
            later + 1
        }
    }
}

/// `text` without what stands before and in its first `://`.
pub open spec fn without_scheme(text: Seq<char>) -> Seq<char> {
    if scheme_separator(text) >= 0 {
        text.subrange(scheme_separator(text) + 3, text.len() as int)
    } else {
        text
    }
}

/// `text` without the slashes at its end.
pub open spec fn without_trailing_slashes(text: Seq<char>) -> Seq<char>
    decreases text.len(),
{
    if text.len() > 0 && text.last() == '/' {
        without_trailing_slashes(text.drop_last())
    } else {
        text
    }
}

/// The channel as the table shows it.
pub open spec fn shown_channel(channel: Option<Seq<char>>) -> Seq<char> {
    match channel {
        Some(name) => without_trailing_slashes(without_scheme(name)),
        None => Seq::empty(),
    }
}

/// `scheme_separator` stays within the text.
pub proof fn lemma_scheme_separator(text: Seq<char>)
    ensures
        -1 <= scheme_separator(text),
        scheme_separator(text) + 3 <= text.len() || scheme_separator(text) == -1,
    decreases text.len(),
{
    if text.len() >= 3 && !(text[0] == ':' && text[1] == '/' && text[2] == '/') {
        lemma_scheme_separator(text.drop_first());
    }
}

/// Finds where `://` first occurs in `text`.
fn find_scheme_separator(text: &str) -> (r: Option<usize>)
    ensures
        r is Some <==> scheme_separator(text@) >= 0,
        r matches Some(at) ==> at == scheme_separator(text@) && at + 3 <= text@.len(),
{
    let n = text.unicode_len();
    let mut i: usize = 0;
    assert(text@.skip(0) =~= text@);
    if n < 3 {
        return None;
    }
    while i <= n - 3
        invariant
            0 <= i <= n,
            n >= 3,
            n == text@.len(),
            scheme_separator(text@) == (if scheme_separator(text@.skip(i as int)) < 0 {
                -1
            } else {
                i + scheme_separator(text@.skip(i as int))
            }),
        decreases n - i,
    {
        let ghost rest = text@.skip(i as int);
        assert(rest.len() >= 3);
        assert(rest[0] == text@[i as int] && rest[1] == text@[i + 1] && rest[2] == text@[i + 2]);
        assert(rest.drop_first() =~= text@.skip(i + 1));
        if text.get_char(i) == ':' && text.get_char(i + 1) == '/' && text.get_char(i + 2) == '/' {
            return Some(i);
        }
        i += 1;
    }
    assert(text@.skip(i as int).len() < 3);
    None
}

/// Shows a channel: takes the scheme off its front and the slashes off its
/// end.
pub fn display_channel(channel: &str) -> (r: String)
    ensures
        r@ == shown_channel(Some(channel@)),
{
    let n = channel.unicode_len();
    let start = match find_scheme_separator(channel) {
        Some(at) => at + 3,
        None => 0,
    };
    let ghost bare = without_scheme(channel@);
    assert(bare =~= channel@.subrange(start as int, n as int));
    let mut end: usize = n;
    assert(bare.subrange(0, (end - start) as int) =~= bare);
    while end > start && channel.get_char(end - 1) == '/'
        invariant
            start <= end <= n,
            n == channel@.len(),
            bare == channel@.subrange(start as int, n as int),
            without_trailing_slashes(bare) == without_trailing_slashes(
                bare.subrange(0, (end - start) as int),
            ),
        decreases end,
    {
        let ghost head = bare.subrange(0, (end - start) as int);
        assert(head.last() == channel@[end - 1]);
        assert(head.drop_last() =~= bare.subrange(0, (end - 1 - start) as int));
        end -= 1;
    }
    proof {
        let head = bare.subrange(0, (end - start) as int);
        if end > start {
            assert(head.last() == channel@[end - 1]);
        }
        assert(head =~= channel@.subrange(start as int, end as int));
    }
    String::from_str(channel.substring_char(start, end))
}

/// `parts` with `, ` between them.
pub open spec fn joined(parts: Seq<Seq<char>>) -> Seq<char>
    decreases parts.len(),
{
    if parts.len() == 0 {
        Seq::empty()
    } else if parts.len() == 1 {
        parts[0]
    } else {
        joined(parts.drop_last()) + ", "@ + parts.last()
    }
}

/// Where the features of the package named `name` stand in `features`: the
/// first entry of that name, or their number where there is none.
pub open spec fn features_position(features: Seq<PackageFeatures>, name: Seq<char>) -> int
    decreases features.len(),
{
    if features.len() == 0 {
        0
    } else if features[0].name@ == name {
        0
    } else {
        1 + features_position(features.drop_first(), name)
    }
}

/// What the table shows for the package named `name`: the name, followed by
/// its selected features in square brackets where `features` has an entry
/// for it.
pub open spec fn package_label(name: Seq<char>, features: Seq<PackageFeatures>) -> Seq<char> {
    let at = features_position(features, name);
    if 0 <= at < features.len() {
        name + "["@ + joined(texts(features[at].features@)) + "]"@
    } else {
        name
    }
}

/// The row of a package.
pub open spec fn row_of(record: ResolvedRecord, features: Seq<PackageFeatures>) -> RowModel {
    RowModel {
        package: package_label(record.name@, features),
        version: record.version@,
        build: record.build@,
        channel: shown_channel(
            match record.channel {
                Some(c) => Some(c@),
                None => None,
            },
        ),
        size: record.size,
    }
}

/// The names of records.
pub open spec fn record_names(records: Seq<ResolvedRecord>) -> Seq<Seq<char>> {
    records.map_values(|r: ResolvedRecord| r.name@)
}

/// Whether `rows` are the rows of `records`, one for each, by ascending
/// package name, packages of one name in the order they were given.
pub open spec fn is_table(
    rows: Seq<RowModel>,
    records: Seq<ResolvedRecord>,
    features: Seq<PackageFeatures>,
) -> bool {
    exists|order: Seq<usize>|
        #![auto]
        is_name_order(order, record_names(records)) && rows.len() == records.len() && forall|
            k: int,
        |
            0 <= k < rows.len() ==> rows[k] == row_of(records[order[k] as int], features)
}

/// Joins texts with `, ` between them.
pub fn join(parts: &Vec<String>) -> (r: String)
    ensures
        r@ == joined(texts(parts@)),
{
    let mut r = String::new();
    let ghost all = texts(parts@);
    let mut i: usize = 0;
    assert(all.take(0) =~= Seq::<Seq<char>>::empty());
    while i < parts.len()
        invariant
            0 <= i <= parts.len(),
            all == texts(parts@),
            r@ == joined(all.take(i as int)),
        decreases parts.len() - i,
    {
        let ghost upto = all.take(i + 1);
        assert(upto.drop_last() =~= all.take(i as int));
        assert(upto.last() == parts@[i as int]@);
        if i > 0 {
            r.append(", ");
        }
        r.append(parts[i].as_str());
        i += 1;
    }
    assert(all.take(parts@.len() as int) =~= all);
    r
}

/// Finds the features of the package named `name`.
fn find_features(features: &Vec<PackageFeatures>, name: &String) -> (r: Option<usize>)
    ensures
        r is Some <==> features_position(features@, name@) < features@.len(),
        r matches Some(at) ==> at == features_position(features@, name@),
        0 <= features_position(features@, name@) <= features@.len(),
{
    let mut i: usize = 0;
    assert(features@.skip(0) =~= features@);
    while i < features.len()
        invariant
            0 <= i <= features.len(),
            features_position(features@, name@) == i + features_position(
                features@.skip(i as int),
                name@,
            ),
        decreases features.len() - i,
    {
        let ghost rest = features@.skip(i as int);
        assert(rest[0] == features@[i as int]);
        assert(rest.drop_first() =~= features@.skip(i + 1));
        if features[i].name == *name {
            return Some(i);
        }
        i += 1;
    }
    assert(features@.skip(features@.len() as int).len() == 0);
    None
}

/// Makes the row of a package.
pub fn make_row(record: &ResolvedRecord, features: &Vec<PackageFeatures>) -> (r: TransactionRow)
    ensures
        r@ == row_of(*record, features@),
{
    let package = match find_features(features, &record.name) {
        Some(at) => record.name.clone().concat("[").concat(
            join(&features[at].features).as_str(),
        ).concat("]"),
        None => record.name.clone(),
    };
    let channel = match &record.channel {
        Some(c) => display_channel(c.as_str()),
        None => String::new(),
    };
    TransactionRow {
        package,
        version: record.version.clone(),
        build: record.build.clone(),
        channel,
        size: record.size,
    }
}

/// Makes the table of the packages that are about to be installed, ordered
/// by package name.
pub fn transaction_rows(records: &Vec<ResolvedRecord>, features: &Vec<PackageFeatures>) -> (r: Vec<
    TransactionRow,
>)
    ensures
        is_table(r@.map_values(|row: TransactionRow| row@), records@, features@),
{
    let mut names: Vec<String> = Vec::new();
    let mut i: usize = 0;
    while i < records.len()
        invariant
            0 <= i <= records.len(),
            names@.len() == i,
            forall|k: int| 0 <= k < i ==> (#[trigger] names@[k])@ == records@[k].name@,
        decreases records.len() - i,
    {
        names.push(records[i].name.clone());
        i += 1;
    }
    assert(texts(names@) =~= record_names(records@));
    let order = name_order(&names);
    let mut r: Vec<TransactionRow> = Vec::new();
    let mut k: usize = 0;
    while k < order.len()
        invariant
            0 <= k <= order.len(),
            order@.len() == records@.len(),
            forall|j: int| 0 <= j < order@.len() ==> #[trigger] order@[j] < records@.len(),
            r@.len() == k,
            forall|j: int|
                0 <= j < k ==> (#[trigger] r@[j])@ == row_of(
                    records@[order@[j] as int],
                    features@,
                ),
        decreases order.len() - k,
    {
        r.push(make_row(&records[order[k]], features));
        k += 1;
    }
    proof {
        let rows = r@.map_values(|row: TransactionRow| row@);
        assert(is_name_order(order@, record_names(records@)));
        assert(rows.len() == records@.len());
        assert forall|j: int| 0 <= j < rows.len() implies rows[j] == row_of(
            records@[order@[j] as int],
            features@,
        ) by {}
    }
    r
}

} // verus!
