//! The SQL statements behind the persistence calls of the pipeline, for PostgreSQL, with
//! numbered parameters for their values.

use scooby::postgres::{delete_from, insert_into, select, update, Parameters};
use vstd::prelude::*;

verus! {

/// The table of indexed posts.
pub const POST_TABLE: &'static str = "Post";

/// The table of profiles.
pub const PROFILE_TABLE: &'static str = "Profile";

/// The table that holds the cursor of each subscription.
pub const SUBSCRIPTION_TABLE: &'static str = "SubscriptionState";

/// The column of a post that holds the identifier of its author.
pub const AUTHOR_COLUMN: &'static str = "author_did";

/// The column of a post that holds the content identifier of its record.
pub const CID_COLUMN: &'static str = "cid";

/// The column of a post that holds its address.
pub const URI_COLUMN: &'static str = "uri";

/// The column of a profile that holds the identifier of the account.
pub const DID_COLUMN: &'static str = "did";

/// The column of a subscription that holds the identity of the subscriber.
pub const SERVICE_COLUMN: &'static str = "service";

/// The column of a subscription that holds the cursor.
pub const CURSOR_COLUMN: &'static str = "cursor";

/// The column of a subscription that holds the host subscribed to.
pub const HOST_COLUMN: &'static str = "host";

/// The text that `scooby` gives for the insertion of one row of three columns into
/// `table`, with the parameters 1 to 3 for the values; `quiet` says whether a row that
/// conflicts with one that is there is passed over.
pub uninterp spec fn insert_of_three(
    table: Seq<char>,
    first: Seq<char>,
    second: Seq<char>,
    third: Seq<char>,
    quiet: bool,
) -> Seq<char>;

/// The text that `scooby` gives for the insertion of one row of one column into `table`,
/// with the parameter 1 for the value, a row that conflicts with one that is there
/// being passed over.
pub uninterp spec fn quiet_insert_of_one(table: Seq<char>, column: Seq<char>) -> Seq<char>;

/// The text that `scooby` gives for the deletion of the rows of `table` whose `column`
/// equals the value of parameter 1.
pub uninterp spec fn delete_where_of(table: Seq<char>, column: Seq<char>) -> Seq<char>;

/// The text that `scooby` gives for the selection of `wanted` from the rows of `table`
/// whose columns `first` and `second` equal the values of the parameters 1 and 2.
pub uninterp spec fn select_where_of(
    wanted: Seq<char>,
    table: Seq<char>,
    first: Seq<char>,
    second: Seq<char>,
) -> Seq<char>;

/// The text that `scooby` gives for setting `changed` to the value of parameter 1 in
/// the rows of `table` whose columns `first` and `second` equal the values of the
/// parameters 2 and 3.
pub uninterp spec fn update_where_of(
    table: Seq<char>,
    changed: Seq<char>,
    first: Seq<char>,
    second: Seq<char>,
) -> Seq<char>;

/// Builds the insertion with `scooby`'s `insert_into`, `columns`, `values` and, where
/// `quiet` holds, `on_conflict().do_nothing()`, the values being the next three
/// parameters of a fresh `Parameters`. Nothing is claimed of the text but that it is a
/// function of the arguments, named [`insert_of_three`].
#[verifier::external_body]
fn insert_three(table: &str, first: &str, second: &str, third: &str, quiet: bool) -> (sql: String)
    ensures
        sql@ == insert_of_three(table@, first@, second@, third@, quiet),
{
    let mut params = Parameters::new();
    let insert = insert_into(table).columns((first, second, third)).values(
        [params.next_array()],
    );
    if quiet {
        insert.on_conflict().do_nothing().to_string()
    } else {
        insert.to_string()
    }
}

/// Builds the insertion with `scooby`'s `insert_into`, `columns`, `values` and
/// `on_conflict().do_nothing()`, the value being the first parameter of a fresh
/// `Parameters`. Nothing is claimed of the text but that it is a function of the
/// arguments, named [`quiet_insert_of_one`].
#[verifier::external_body]
fn quiet_insert_one(table: &str, column: &str) -> (sql: String)
    ensures
        sql@ == quiet_insert_of_one(table@, column@),
{
    let mut params = Parameters::new();
    insert_into(table).columns((column,)).values([params.next_array()]).on_conflict().do_nothing().to_string()
}

/// Builds the deletion with `scooby`'s `delete_from` and `where_`, the condition being
/// the column, an equals sign and the first parameter of a fresh `Parameters`. Nothing
/// is claimed of the text but that it is a function of the arguments, named
/// [`delete_where_of`].
#[verifier::external_body]
fn delete_where(table: &str, column: &str) -> (sql: String)
    ensures
        sql@ == delete_where_of(table@, column@),
{
    let mut params = Parameters::new();
    delete_from(table).where_(format!("{} = {}", column, params.next())).to_string()
}

/// Builds the selection with `scooby`'s `select`, `from` and `where_`, each condition
/// being a column, an equals sign and the next parameter of a fresh `Parameters`.
/// Nothing is claimed of the text but that it is a function of the arguments, named
/// [`select_where_of`].
#[verifier::external_body]
fn select_where(wanted: &str, table: &str, first: &str, second: &str) -> (sql: String)
    ensures
        sql@ == select_where_of(wanted@, table@, first@, second@),
{
    let mut params = Parameters::new();
    select(wanted).from(table).where_(format!("{} = {}", first, params.next())).where_(
        format!("{} = {}", second, params.next()),
    ).to_string()
}

/// Builds the update with `scooby`'s `update`, `set` and `where_`, the new value being
/// the first parameter of a fresh `Parameters` and each condition a column, an equals
/// sign and the next parameter. Nothing is claimed of the text but that it is a
/// function of the arguments, named [`update_where_of`].
#[verifier::external_body]
fn update_where(table: &str, changed: &str, first: &str, second: &str) -> (sql: String)
    ensures
        sql@ == update_where_of(table@, changed@, first@, second@),
{
    let mut params = Parameters::new();
    update(table).set(changed, params.next()).where_(
        format!("{} = {}", first, params.next()),
    ).where_(format!("{} = {}", second, params.next())).to_string()
}

/// The statement that inserts a post; its values are the author, the content identifier
/// and the address. A post that is there already is passed over.
pub fn insert_post_statement() -> (sql: String)
    ensures
        sql@ == insert_of_three(POST_TABLE@, AUTHOR_COLUMN@, CID_COLUMN@, URI_COLUMN@, true),
{
    insert_three(POST_TABLE, AUTHOR_COLUMN, CID_COLUMN, URI_COLUMN, true)
}

/// The statement that gives an account a profile; its value is the identifier of the
/// account. A profile that is there already is passed over.
pub fn ensure_profile_statement() -> (sql: String)
    ensures
        sql@ == quiet_insert_of_one(PROFILE_TABLE@, DID_COLUMN@),
{
    quiet_insert_one(PROFILE_TABLE, DID_COLUMN)
}

/// The statement that deletes the posts at an address; its value is the address.
pub fn delete_post_statement() -> (sql: String)
    ensures
        sql@ == delete_where_of(POST_TABLE@, URI_COLUMN@),
{
    delete_where(POST_TABLE, URI_COLUMN)
}

/// The statement that reads the cursor of a subscription; its values are the subscriber
/// and the host.
pub fn fetch_cursor_statement() -> (sql: String)
    ensures
        sql@ == select_where_of(CURSOR_COLUMN@, SUBSCRIPTION_TABLE@, SERVICE_COLUMN@, HOST_COLUMN@),
{
    select_where(CURSOR_COLUMN, SUBSCRIPTION_TABLE, SERVICE_COLUMN, HOST_COLUMN)
}

/// The statement that creates the state of a subscription; its values are the
/// subscriber, the cursor and the host.
pub fn create_cursor_statement() -> (sql: String)
    ensures
        sql@ == insert_of_three(
            SUBSCRIPTION_TABLE@,
            SERVICE_COLUMN@,
            CURSOR_COLUMN@,
            HOST_COLUMN@,
            false,
        ),
{
    insert_three(SUBSCRIPTION_TABLE, SERVICE_COLUMN, CURSOR_COLUMN, HOST_COLUMN, false)
}

/// The statement that moves the cursor of a subscription; its values are the cursor, the
/// subscriber and the host.
pub fn update_cursor_statement() -> (sql: String)
    ensures
        sql@ == update_where_of(SUBSCRIPTION_TABLE@, CURSOR_COLUMN@, SERVICE_COLUMN@, HOST_COLUMN@),
{
    update_where(SUBSCRIPTION_TABLE, CURSOR_COLUMN, SERVICE_COLUMN, HOST_COLUMN)
}

} // verus!
