//! The user file, which maps stored tokens to user names, and the registry
//! that answers whether the holder of a token may update a submodule.
//!
//! The file holds one entry per line, `{username} = {stored token}`; lines
//! without `=` are ignored, both sides are trimmed, and a later line for the
//! same stored token replaces an earlier one.

use vstd::prelude::*;
use vstd::hash_map::StringHashMap;
use crate::access::permissions::{Permissions, spec_allowed};
use crate::access::token::{storable_token, spec_storable_token};
use crate::access::token::{lemma_base64_alphabet, is_base64_symbol, sha512_digest};
use crate::text::{
    first_index, split_on, trim, is_white_space, trim_bounds, find_char,
    str_to_chars, is_first_index, lemma_first_index_is,
};
use vstd::string::{StringExecFns, StrSliceExecFns};
use vstd::utf8::encode_utf8;

verus! {

/// The entry of one line of the user file: `(stored token, user)`, from the
/// text before and after the first `=`, both trimmed.
pub open spec fn parse_entry(line: Seq<char>) -> Option<(Seq<char>, Seq<char>)> {
    match first_index(line, '=') {
        Some(k) => Some((trim(line.skip(k + 1)), trim(line.take(k)))),
        None => None,
    }
}

/// The map from stored token to user that the lines give, read in order.
pub open spec fn entries_map(lines: Seq<Seq<char>>) -> Map<Seq<char>, Seq<char>>
    decreases lines.len(),
{
    if lines.len() == 0 {
        Map::empty()
    } else {
        let before = entries_map(lines.drop_last());
        match parse_entry(lines.last()) {
            Some((token, user)) => before.insert(token, user),
            None => before,
        }
    }
}

/// The map from stored token to user that the text of a user file gives.
pub open spec fn parse_user_file(text: Seq<char>) -> Map<Seq<char>, Seq<char>> {
    entries_map(split_on(text, '\n'))
}

/// The line that records `user` with the stored token `stored` in the user
/// file, newline included.
pub open spec fn spec_user_file_line(user: Seq<char>, stored: Seq<char>) -> Seq<char> {
    user + seq![' ', '=', ' '] + stored + seq!['\n']
}

/// A map of `String` values seen through the values' characters.
pub open spec fn users_view(m: Map<Seq<char>, String>) -> Map<Seq<char>, Seq<char>> {
    m.map_values(|u: String| u@)
}

/// The users known to the service, by stored token.
pub struct UserToken {
    pub map: StringHashMap<String>,
}

impl View for UserToken {
    type V = Map<Seq<char>, Seq<char>>;

    open spec fn view(&self) -> Map<Seq<char>, Seq<char>> {
        users_view(self.map@)
    }
}

/// Adds the entry of the line `chars[lo..hi]`, if it has one.
fn add_line(text: &str, chars: &[char], lo: usize, hi: usize, map: &mut StringHashMap<String>)
    requires
        chars@ == text@,
        lo <= hi <= chars@.len(),
    ensures
        users_view(final(map)@) == match parse_entry(chars@.subrange(lo as int, hi as int)) {
            Some((token, user)) => users_view(old(map)@).insert(token, user),
            None => users_view(old(map)@),
        },
{
    let ghost line = chars@.subrange(lo as int, hi as int);
    match find_char(chars, lo, hi, '=') {
        None => {},
        Some(k) => {
            let (ua, ub) = trim_bounds(chars, lo, k);
            let (ta, tb) = trim_bounds(chars, k + 1, hi);
            let user = text.substring_char(ua, ub).to_owned();
            let token = text.substring_char(ta, tb).to_owned();
            proof {
                assert(line.take(k - lo) =~= chars@.subrange(lo as int, k as int));
                assert(line.skip(k - lo + 1) =~= chars@.subrange(k + 1, hi as int));
            }
            map.insert(token, user);
            proof {
                assert(users_view(map@) =~= users_view(old(map)@).insert(
                    trim(line.skip(k - lo + 1)),
                    trim(line.take(k - lo)),
                ));
            }
        },
    }
}

/// The line that records `username` with the stored token `stored_token` in
/// the user file: `{username} = {stored_token}` and a newline.
pub fn user_file_line(username: &str, stored_token: &str) -> (res: String)
    ensures
        res@ == spec_user_file_line(username@, stored_token@),
{
    let mut line = username.to_owned();
    line.append(" = ");
    line.append(stored_token);
    line.append("\n");
    proof {
        reveal_strlit(" = ");
        reveal_strlit("\n");
    }
    line
}

impl UserToken {
    /// Reads the text of a user file. Every text is accepted.
    pub fn from_str(text: &str) -> (res: UserToken)
        ensures
            res@ == parse_user_file(text@),
    {
        let chars = str_to_chars(text);
        let n = chars.len();
        let mut map: StringHashMap<String> = StringHashMap::new();
        let mut start: usize = 0;
        let mut i: usize = 0;
        proof {
            assert(chars@.take(0) =~= Seq::<char>::empty());
            assert(users_view(map@) =~= Map::<Seq<char>, Seq<char>>::empty());
        }
        while i < n
            invariant
                n == chars@.len(),
                chars@ == text@,
                start <= i <= n,
                split_on(chars@.take(i as int), '\n').len() >= 1,
                split_on(chars@.take(i as int), '\n').last() == chars@.subrange(start as int, i as int),
                users_view(map@) == entries_map(split_on(chars@.take(i as int), '\n').drop_last()),
            decreases n - i,
        {
            let ghost prev = split_on(chars@.take(i as int), '\n');
            let ghost next_text = chars@.take(i + 1);
            proof {
                assert(next_text.drop_last() =~= chars@.take(i as int));
                assert(next_text.last() == chars@[i as int]);
            }
            if chars[i] == '\n' {
                add_line(text, chars.as_slice(), start, i, &mut map);
                proof {
                    let next = split_on(next_text, '\n');
                    assert(next == prev.push(Seq::<char>::empty()));
                    assert(next.drop_last() =~= prev);
                    assert(prev =~= prev.drop_last().push(prev.last()));
                    assert(chars@.subrange(i + 1, i + 1) =~= Seq::<char>::empty());
                }
                start = i + 1;
            } else {
                proof {
                    let next = split_on(next_text, '\n');
                    assert(next == prev.update(prev.len() - 1, prev.last().push(chars@[i as int])));
                    assert(next.drop_last() =~= prev.drop_last());
                    assert(next.last() =~= chars@.subrange(start as int, i + 1));
                }
            }
            i = i + 1;
        }
        add_line(text, chars.as_slice(), start, n, &mut map);
        proof {
            let lines = split_on(chars@, '\n');
            assert(chars@.take(n as int) =~= chars@);
            assert(lines =~= lines.drop_last().push(lines.last()));
        }
        UserToken { map }
    }
}

/// The users and what they may do: the registry the server consults.
pub struct PermissionRegistery {
    pub users: UserToken,
    pub permissions: Permissions,
}

impl PermissionRegistery {
    /// The user whose token is `token`, if the user file knows it.
    pub fn get_user(&self, token: &str) -> (res: Option<&String>)
        ensures
            match res {
                Some(user) => self.users@.contains_key(spec_storable_token(token@))
                    && user@ == self.users@[spec_storable_token(token@)],
                None => !self.users@.contains_key(spec_storable_token(token@)),
            },
    {
        let stored = storable_token(token);
        self.users.map.get(stored.as_str())
    }

    /// Whether the holder of `token` may update `submodule` of `owner/repo`
    /// on `branch`: the token must belong to a known user whom the permission
    /// tree grants that update.
    pub fn allowed(&self, token: &str, owner: &str, repo: &str, branch: &str, submodule: &str) -> (res: bool)
        ensures
            res == (self.users@.contains_key(spec_storable_token(token@)) && spec_allowed(
                self.permissions@,
                self.users@[spec_storable_token(token@)],
                owner@,
                repo@,
                branch@,
                submodule@,
            )),
    {
        match self.get_user(token) {
            None => false,
            Some(user) => self.permissions.allowed(user.as_str(), owner, repo, branch, submodule),
        }
    }
}

} // verus!

verus! {

/// The line written for a user parses back to the user and the stored token,
/// each trimmed, when the user name holds no `=`.
proof fn lemma_parse_entry_of_line(user: Seq<char>, stored: Seq<char>)
    requires
        forall|i: int| 0 <= i < user.len() ==> user[i] != '=',
    ensures
        parse_entry(user + seq![' ', '=', ' '] + stored) == Some((trim(stored), trim(user))),
{
    let body = user + seq![' ', '=', ' '] + stored;
    let k: int = user.len() as int + 1;
    assert(body[k] == '=');
    assert forall|j: int| 0 <= j < k implies body[j] != '=' by {
        if j < user.len() {
            assert(body[j] == user[j]);
        }
    }
    assert(is_first_index(body, '=', k));
    lemma_first_index_is(body, '=', k);
    assert(body.take(k) =~= user.push(' '));
    assert(body.skip(k + 1) =~= seq![' '] + stored);
    assert(is_white_space(' '));
    crate::text::lemma_trim_push_white(user, ' ');
    crate::text::lemma_trim_prepend_white(stored, ' ');
}

/// The law of the user file: appending the line of a user to a file whose
/// every line is complete makes the stored token map to the (trimmed) user
/// and leaves every other entry as it was. The user name must hold neither
/// `=` nor a newline, and the stored token no newline.
pub proof fn lemma_user_file_append(text: Seq<char>, user: Seq<char>, stored: Seq<char>)
    requires
        text.len() == 0 || text.last() == '\n',
        forall|i: int| 0 <= i < user.len() ==> user[i] != '=' && user[i] != '\n',
        forall|i: int| 0 <= i < stored.len() ==> stored[i] != '\n',
    ensures
        parse_user_file(text + spec_user_file_line(user, stored)) == parse_user_file(text).insert(
            trim(stored),
            trim(user),
        ),
{
    let body = user + seq![' ', '=', ' '] + stored;
    let full = text + spec_user_file_line(user, stored);
    assert(full =~= (text + body).push('\n'));
    assert(full.drop_last() =~= text + body);
    assert forall|i: int| 0 <= i < body.len() implies body[i] != '\n' by {
        if i < user.len() {
            assert(body[i] == user[i]);
        } else if i >= user.len() + 3 {
            assert(body[i] == stored[i - user.len() - 3]);
        }
    }
    let s = split_on(text, '\n');
    crate::text::lemma_split_on_after_sep(text, '\n');
    crate::text::lemma_split_on_extend_last(text, body, '\n');
    assert(s.last() + body =~= body);
    let with_body = split_on(text + body, '\n');
    assert(with_body == s.update(s.len() - 1, body));
    crate::text::lemma_split_on_nonempty(text + body, '\n');
    let lines = split_on(full, '\n');
    assert(lines == with_body.push(Seq::<char>::empty()));
    crate::text::lemma_first_index_none(Seq::<char>::empty(), '=');
    assert(lines.drop_last() =~= with_body);
    assert(entries_map(lines) == entries_map(with_body));
    assert(with_body.drop_last() =~= s.drop_last());
    assert(with_body.last() == body);
    lemma_parse_entry_of_line(user, stored);
    assert(entries_map(s) == entries_map(s.drop_last()));
}

/// A line of the user file has an entry exactly when it holds a `=`; the
/// entry's user is the trimmed text before the first `=`, and its stored
/// token the trimmed text after it.
pub proof fn lemma_parse_entry_law(line: Seq<char>)
    ensures
        (parse_entry(line) is None) == (forall|i: int| 0 <= i < line.len() ==> line[i] != '='),
        parse_entry(line) matches Some((token, user)) ==> exists|k: int|
            0 <= k < line.len() && line[k] == '=' && (forall|j: int| 0 <= j < k ==> line[j] != '=')
                && user == trim(line.take(k)) && token == trim(line.skip(k + 1)),
{
    if exists|k: int| is_first_index(line, '=', k) {
        let k = choose|k: int| is_first_index(line, '=', k);
        assert(line[k] == '=');
    } else {
        assert forall|i: int| 0 <= i < line.len() implies line[i] != '=' by {
            if line[i] == '=' {
                crate::text::lemma_first_index_exists(line, '=', i);
            }
        }
    }
}

/// Reading the user file goes line by line, a later line for the same stored
/// token replacing an earlier one: the entries of a text whose last line is
/// complete, followed by one more line, are those of the text updated with
/// that line's entry, if it has one.
pub proof fn lemma_user_file_line_by_line(text: Seq<char>, line: Seq<char>)
    requires
        text.len() == 0 || text.last() == '\n',
        forall|i: int| 0 <= i < line.len() ==> line[i] != '\n',
    ensures
        parse_user_file(text + line) == match parse_entry(line) {
            Some((token, user)) => parse_user_file(text).insert(token, user),
            None => parse_user_file(text),
        },
{
    let s = split_on(text, '\n');
    crate::text::lemma_split_on_after_sep(text, '\n');
    crate::text::lemma_split_on_extend_last(text, line, '\n');
    assert(s.last() + line =~= line);
    let with_line = split_on(text + line, '\n');
    assert(with_line.drop_last() =~= s.drop_last());
    crate::text::lemma_first_index_none(Seq::<char>::empty(), '=');
    assert(entries_map(s) == entries_map(s.drop_last()));
}

/// A Base64 character is neither whitespace nor a newline.
proof fn lemma_base64_symbol_not_white(c: char)
    requires
        is_base64_symbol(c),
    ensures
        !is_white_space(c),
        c != '\n',
{
}

/// A stored token is its own trim and holds no newline.
pub proof fn lemma_storable_token_solid(token: Seq<char>)
    ensures
        trim(spec_storable_token(token)) == spec_storable_token(token),
        forall|i: int|
            0 <= i < spec_storable_token(token).len() ==> #[trigger] spec_storable_token(token)[i]
                != '\n',
{
    let st = spec_storable_token(token);
    lemma_base64_alphabet(sha512_digest(encode_utf8(token)));
    assert forall|i: int| 0 <= i < st.len() implies !is_white_space(#[trigger] st[i]) && st[i]
        != '\n' by {
        lemma_base64_symbol_not_white(st[i]);
    }
    if st.len() > 0 {
        assert(!is_white_space(st[0]));
        assert(!is_white_space(st[st.len() - 1]));
    }
    crate::text::lemma_trim_solid(st);
}

/// Adding a user: once the line for `user` and the stored form of `token`
/// is appended to a user file whose lines are complete, reading the file
/// gives `user` (trimmed) for that token, and every other entry unchanged.
pub proof fn lemma_added_user_is_read_back(text: Seq<char>, user: Seq<char>, token: Seq<char>)
    requires
        text.len() == 0 || text.last() == '\n',
        forall|i: int| 0 <= i < user.len() ==> user[i] != '=' && user[i] != '\n',
    ensures
        parse_user_file(text + spec_user_file_line(user, spec_storable_token(token)))
            == parse_user_file(text).insert(spec_storable_token(token), trim(user)),
{
    lemma_storable_token_solid(token);
    lemma_user_file_append(text, user, spec_storable_token(token));
}

/// Adding a user grants the holder of the new token exactly what the
/// permission tree grants the (trimmed) user name.
pub proof fn lemma_added_user_is_authorized(
    text: Seq<char>,
    user: Seq<char>,
    token: Seq<char>,
    tree: crate::access::permissions::PermTree,
    owner: Seq<char>,
    repo: Seq<char>,
    branch: Seq<char>,
    submodule: Seq<char>,
)
    requires
        text.len() == 0 || text.last() == '\n',
        forall|i: int| 0 <= i < user.len() ==> user[i] != '=' && user[i] != '\n',
    ensures
        ({
            let users = parse_user_file(text + spec_user_file_line(user, spec_storable_token(token)));
            let stored = spec_storable_token(token);
            (users.contains_key(stored) && spec_allowed(tree, users[stored], owner, repo, branch, submodule))
                == spec_allowed(tree, trim(user), owner, repo, branch, submodule)
        }),
{
    lemma_added_user_is_read_back(text, user, token);
}

} // verus!
