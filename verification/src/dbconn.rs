//! A mock database connection and two small user-service queries built on
//! it.  The connection is a plain resource with an open flag; a query on a
//! closed connection is a usage error and is ruled out by contract.

use vstd::prelude::*;
use vstd::string::StringExecFns;
use crate::textutil;

verus! {

/// The sequence the result strings of `get_user_info` are joined with.
pub open spec fn list_separator() -> Seq<char> {
    seq![',', ' ']
}

/// The views of `items`, joined with `", "`, restricted to the first `n`.
pub open spec fn joined_upto(items: Seq<Seq<char>>, n: int) -> Seq<char>
    recommends
        n <= items.len(),
    decreases n,
{
    if n <= 0 {
        Seq::empty()
    } else if n == 1 {
        items[0]
    } else {
        joined_upto(items, n - 1) + list_separator() + items[n - 1]
    }
}

/// A mock connection to a database: an id, a host, and an open flag.
pub struct DatabaseConnection {
    connection_id: u32,
    host: String,
    is_open: bool,
}

impl DatabaseConnection {
    /// The connection's id.
    pub closed spec fn spec_id(&self) -> u32 {
        self.connection_id
    }

    /// The host the connection points at.
    pub closed spec fn spec_host(&self) -> Seq<char> {
        self.host@
    }

    /// Whether the connection is still open.
    pub closed spec fn spec_is_open(&self) -> bool {
        self.is_open
    }

    /// Open a connection with the given id to the given host.
    pub fn new(id: u32, host: &str) -> (c: Self)
        ensures
            c.spec_id() == id,
            c.spec_host() == host@,
            c.spec_is_open(),
    {
        DatabaseConnection { connection_id: id, host: String::from_str(host), is_open: true }
    }

    /// Run a query.  The mock answers every query with the same two result
    /// rows.  Querying a closed connection is a usage error, ruled out here
    /// by contract.
    pub fn query(&self, sql: &str) -> (r: Vec<String>)
        requires
            self.spec_is_open(),
        ensures
            r@.len() == 2,
            r@[0]@ == "结果1"@,
            r@[1]@ == "结果2"@,
    {
        let _ = sql;
        let mut rows: Vec<String> = Vec::new();
        rows.push(String::from_str("结果1"));
        rows.push(String::from_str("结果2"));
        rows
    }

    /// Close the connection; closing twice is harmless.
    pub fn close(&mut self)
        ensures
            !final(self).spec_is_open(),
            final(self).spec_id() == old(self).spec_id(),
            final(self).spec_host() == old(self).spec_host(),
    {
        if self.is_open {
            self.is_open = false;
        }
    }
}

/// Append the views of `items`, joined with `", "`, to `out`.
fn push_joined(out: &mut String, items: &Vec<String>)
    ensures
        final(out)@ == old(out)@ + joined_upto(
            items@.map_values(|s: String| s@),
            items@.len() as int,
        ),
{
    let ghost views = items@.map_values(|s: String| s@);
    let mut i: usize = 0;
    proof {
        assert(out@ =~= old(out)@ + joined_upto(views, 0int));
    }
    while i < items.len()
        invariant
            i <= items@.len(),
            views == items@.map_values(|s: String| s@),
            out@ == old(out)@ + joined_upto(views, i as int),
        decreases items@.len() - i,
    {
        if i > 0 {
            textutil::push_char(out, ',');
            textutil::push_char(out, ' ');
        }
        out.append(items[i].as_str());
        i = i + 1;
        proof {
            assert(out@ =~= old(out)@ + joined_upto(views, i as int));
        }
    }
}

/// A one-line description of a user: the result rows of the user query,
/// joined after a fixed prefix.
pub fn get_user_info(conn: &DatabaseConnection, user_id: u32) -> (r: String)
    requires
        conn.spec_is_open(),
    ensures
        r@ == "用户信息: "@ + "结果1"@ + list_separator() + "结果2"@,
{
    let mut sql = String::from_str("SELECT * FROM users WHERE id = ");
    textutil::push_decimal(&mut sql, user_id as usize);
    let results = conn.query(sql.as_str());
    let mut out = String::from_str("用户信息: ");
    push_joined(&mut out, &results);
    proof {
        let views = results@.map_values(|s: String| s@);
        assert(views.len() == 2);
        assert(views[0] == "结果1"@);
        assert(views[1] == "结果2"@);
        assert(joined_upto(views, 1int) == views[0]);
        assert(joined_upto(views, 2int) == joined_upto(views, 1int) + list_separator()
            + views[1]);
        assert(joined_upto(views, 2int) =~= "结果1"@ + list_separator() + "结果2"@);
        assert(out@ =~= "用户信息: "@ + "结果1"@ + list_separator() + "结果2"@);
    }
    out
}

/// The order rows for a user: whatever the order query returns.
pub fn get_user_orders(conn: &DatabaseConnection, user_id: u32) -> (r: Vec<String>)
    requires
        conn.spec_is_open(),
    ensures
        r@.len() == 2,
        r@[0]@ == "结果1"@,
        r@[1]@ == "结果2"@,
{
    let mut sql = String::from_str("SELECT * FROM orders WHERE user_id = ");
    textutil::push_decimal(&mut sql, user_id as usize);
    conn.query(sql.as_str())
}

} // verus!
