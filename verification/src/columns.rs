//! Resolving configured column names against a dataset header.
//!
//! A missing column is a fatal configuration error, found eagerly before any
//! row is scanned. Names are compared as given: normalize the header and the
//! configured names the same way (a front end would uppercase both) before
//! resolving.

use vstd::prelude::*;
use vstd::string::StringExecFns;
use crate::config::ConfigError;
use crate::ngram::string_views;

verus! {

/// A resolved column: its name and its position in the header.
#[derive(Debug, Clone, PartialEq, Eq, Default)]
pub struct ColumnInfo {
    pub name: String,
    pub index: usize,
}

/// Whether the header holds a column of this name.
pub open spec fn column_found(header: Seq<Seq<char>>, c: Seq<char>) -> bool {
    exists|j: int| 0 <= j < header.len() && header[j] == c
}

/// Whether the info resolves the name to its first occurrence in the header.
pub open spec fn resolves(header: Seq<Seq<char>>, c: Seq<char>, info: ColumnInfo) -> bool {
    &&& info.name@ == c
    &&& info.index < header.len()
    &&& header[info.index as int] == c
    &&& forall|j: int| 0 <= j < info.index ==> header[j] != c
}

/// The position of the column in the header, or an error naming the column
/// when the header does not hold it.
pub fn get_column_info(header: &Vec<String>, column: &String) -> (r: Result<
    ColumnInfo,
    ConfigError,
>)
    ensures
        r matches Ok(info) ==> resolves(string_views(header@), column@, info),
        r matches Err(e) ==> e == ConfigError::ColumnNotFound(*column) && !column_found(
            string_views(header@),
            column@,
        ),
        r is Ok <==> column_found(string_views(header@), column@),
{
    let ghost hv = string_views(header@);
    let mut i: usize = 0;
    while i < header.len()
        invariant
            hv == string_views(header@),
            i <= header@.len(),
            forall|j: int| 0 <= j < i ==> hv[j] != column@,
        decreases header@.len() - i,
    {
        if header[i] == *column {
            assert(hv[i as int] == column@);
            return Ok(ColumnInfo { name: column.clone(), index: i });
        }
        i = i + 1;
    }
    Err(ConfigError::ColumnNotFound(column.clone()))
}

/// Resolves every configured column, or reports the first missing one.
pub fn collect_column_info(header: &Vec<String>, column_names: &Vec<String>) -> (r: Result<
    Vec<ColumnInfo>,
    ConfigError,
>)
    ensures
        r is Ok <==> (forall|i: int|
            0 <= i < column_names@.len() ==> column_found(
                string_views(header@),
                #[trigger] column_names@[i]@,
            )),
        r matches Ok(infos) ==> infos@.len() == column_names@.len() && forall|i: int|
            0 <= i < column_names@.len() ==> resolves(
                string_views(header@),
                column_names@[i]@,
                #[trigger] infos@[i],
            ),
        r matches Err(e) ==> exists|i: int|
            0 <= i < column_names@.len() && e == ConfigError::ColumnNotFound(
                #[trigger] column_names@[i],
            ) && !column_found(string_views(header@), column_names@[i]@),
{
    let mut infos: Vec<ColumnInfo> = Vec::new();
    let mut i: usize = 0;
    while i < column_names.len()
        invariant
            i <= column_names@.len(),
            infos@.len() == i,
            forall|j: int|
                0 <= j < i ==> resolves(
                    string_views(header@),
                    column_names@[j]@,
                    #[trigger] infos@[j],
                ),
        decreases column_names@.len() - i,
    {
        match get_column_info(header, &column_names[i]) {
            Ok(info) => {
                infos.push(info);
            },
            Err(e) => {
                return Err(e);
            },
        }
        i = i + 1;
    }
    proof {
        assert forall|j: int| 0 <= j < column_names@.len() implies column_found(
            string_views(header@),
            #[trigger] column_names@[j]@,
        ) by {
            assert(resolves(string_views(header@), column_names@[j]@, infos@[j]));
            assert(string_views(header@)[infos@[j].index as int] == column_names@[j]@);
        }
    }
    Ok(infos)
}

/// The position of each configured column's first occurrence in the header,
/// or the first missing name.
pub fn find_column_indices(header: &Vec<String>, search_cols: &Vec<String>) -> (r: Result<
    Vec<usize>,
    ConfigError,
>)
    ensures
        r is Ok <==> (forall|i: int|
            0 <= i < search_cols@.len() ==> column_found(
                string_views(header@),
                #[trigger] search_cols@[i]@,
            )),
        r matches Ok(ixs) ==> ixs@.len() == search_cols@.len() && forall|i: int|
            0 <= i < search_cols@.len() ==> #[trigger] ixs@[i] < header@.len()
                && string_views(header@)[ixs@[i] as int] == search_cols@[i]@ && (forall|j: int|
                0 <= j < ixs@[i] ==> string_views(header@)[j] != search_cols@[i]@),
{
    let mut ixs: Vec<usize> = Vec::new();
    let mut i: usize = 0;
    while i < search_cols.len()
        invariant
            i <= search_cols@.len(),
            ixs@.len() == i,
            forall|j: int|
                0 <= j < i ==> #[trigger] ixs@[j] < header@.len() && string_views(
                    header@,
                )[ixs@[j] as int] == search_cols@[j]@ && (forall|p: int|
                    0 <= p < ixs@[j] ==> string_views(header@)[p] != search_cols@[j]@),
        decreases search_cols@.len() - i,
    {
        match get_column_info(header, &search_cols[i]) {
            Ok(info) => {
                ixs.push(info.index);
            },
            Err(e) => {
                return Err(e);
            },
        }
        i = i + 1;
    }
    proof {
        assert forall|j: int| 0 <= j < search_cols@.len() implies column_found(
            string_views(header@),
            #[trigger] search_cols@[j]@,
        ) by {
            assert(ixs@[j] < header@.len() && string_views(header@)[ixs@[j] as int]
                == search_cols@[j]@);
        }
    }
    Ok(ixs)
}

} // verus!
