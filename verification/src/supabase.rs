use vstd::prelude::*;

use crate::text::texts;

verus! {

/// One row of a notes table as listed by title only.
pub struct Headers {
    pub header: String,
}

/// One full row of a notes table.
pub struct Resp {
    id: Option<i32>,
    created_at: Option<String>,
    pub header: String,
    pub content: String,
}

/// The body sent to store a note.
pub struct Msg {
    pub header: String,
    pub content: String,
}

impl Resp {
    pub fn new(id: Option<i32>, created_at: Option<String>, header: String, content: String) -> (r: Resp)
        ensures
            r.id() == id,
            r.created_at() == created_at,
            r.header_text() == header@,
            r.content_text() == content@,
    {
        Resp { id, created_at, header, content }
    }

    pub closed spec fn header_text(&self) -> Seq<char> {
        self.header@
    }

    pub closed spec fn content_text(&self) -> Seq<char> {
        self.content@
    }

    /// The note's text.
    pub fn get_content(&self) -> (c: &String)
        ensures
            c@ == self.content_text(),
    {
        &self.content
    }

    /// The note's title.
    pub fn get_header(&self) -> (h: &String)
        ensures
            h@ == self.header_text(),
    {
        &self.header
    }

    pub closed spec fn id(&self) -> Option<i32> {
        self.id
    }

    pub closed spec fn created_at(&self) -> Option<String> {
        self.created_at
    }

    /// The row's number, if the table gave one.
    pub fn get_id(&self) -> (id: Option<i32>)
        ensures
            id == self.id(),
    {
        self.id
    }

    /// When the row was made, if the table gave it.
    pub fn get_created_at(&self) -> (t: Option<String>)
        ensures
            t == self.created_at(),
    {
        self.created_at.clone()
    }
}

/// The address of a table: the base address, a slash, the table's name.
pub open spec fn table_address(base_url: Seq<char>, table: Seq<char>) -> Seq<char> {
    base_url + "/"@ + table
}

/// `base_url/table`: every row of the table.
pub fn table_url(base_url: &String, table: &str) -> (url: String)
    ensures
        url@ == table_address(base_url@, table@),
{
    let mut url = base_url.clone();
    url.append("/");
    url.append(table);
    url
}

/// `base_url/table?select=header`: the titles of the table's rows.
pub fn headers_url(base_url: &String, table: &str) -> (url: String)
    ensures
        url@ == table_address(base_url@, table@) + "?select=header"@,
{
    let mut url = table_url(base_url, table);
    url.append("?select=header");
    url
}

/// `base_url/table?header=eq.header`: the rows whose title is `header`.
pub fn header_url(base_url: &String, table: &str, header: &str) -> (url: String)
    ensures
        url@ == table_address(base_url@, table@) + "?header=eq."@ + header@,
{
    let mut url = table_url(base_url, table);
    url.append("?header=eq.");
    url.append(header);
    url
}

/// The titles of the listed rows, in their order.
pub fn header_titles(list: &Vec<Headers>) -> (titles: Vec<String>)
    ensures
        texts(titles@) == Seq::new(list@.len(), |i: int| list@[i].header@),
{
    let mut titles: Vec<String> = Vec::new();
    let mut i: usize = 0;
    while i < list.len()
        invariant
            i <= list.len(),
            titles@.len() == i,
            texts(titles@) == Seq::new(i as nat, |k: int| list@[k].header@),
        decreases list.len() - i,
    {
        let ghost before = titles@;
        let title = list[i].header.clone();
        assert(title@ == list@[i as int].header@);
        titles.push(title);
        assert(titles@ == before.push(title));
        assert forall|k: int| 0 <= k < i implies texts(titles@)[k] == list@[k].header@ by {
            assert(titles@[k] == before[k]);
            assert(texts(before)[k] == list@[k].header@);
        }
        assert(texts(titles@) =~= Seq::new((i + 1) as nat, |k: int| list@[k].header@));
        i = i + 1;
    }
    titles
}


/// The table's address is the base address, one slash, and the table's name.
pub proof fn law_table_address(base_url: Seq<char>, table: Seq<char>)
    ensures
        table_address(base_url, table) == base_url + seq!['/'] + table,
        table_address(base_url, table).len() == base_url.len() + 1 + table.len(),
        table_address(base_url, table)[base_url.len() as int] == '/',
{
    reveal_strlit("/");
    assert(table_address(base_url, table) =~= base_url + seq!['/'] + table);
}

} // verus!
