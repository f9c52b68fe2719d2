//! Paths: where they are cut into components, and how they are put together.

use vstd::prelude::*;

use crate::text;

verus! {

/// The pieces of a text between slashes, from a position on.
pub open spec fn pieces_from(path: Seq<char>, from: int) -> Seq<Seq<char>>
    decreases path.len() - from,
    via pieces_from_decreases
{
    if from < 0 || from > path.len() {
        Seq::empty()
    } else {
        match text::first_char(path, '/', from) {
            Some(end) => seq![path.subrange(from, end)] + pieces_from(path, end + 1),
            None => seq![path.skip(from)],
        }
    }
}

#[via_fn]
proof fn pieces_from_decreases(path: Seq<char>, from: int) {
    text::lemma_first_char(path, '/', from);
}

/// Whether a piece names something: it is neither empty nor a lone dot.
pub open spec fn is_component(piece: Seq<char>) -> bool {
    piece.len() > 0 && piece != seq!['.']
}

/// What a path starts with: the root, the current directory, or neither.
pub open spec fn path_start(path: Seq<char>) -> Seq<Seq<char>> {
    if path.len() > 0 && path[0] == '/' {
        seq![seq!['/']]
    } else if path.len() > 0 && path[0] == '.' && (path.len() == 1 || path[1] == '/') {
        seq![seq!['.']]
    } else {
        Seq::empty()
    }
}

/// The components of a path. Repeated and trailing slashes do not matter, nor
/// does a lone dot but at the beginning.
pub open spec fn components(path: Seq<char>) -> Seq<Seq<char>> {
    path_start(path) + pieces_from(path, 0).filter(|piece: Seq<char>| is_component(piece))
}

/// Whether two paths have the same components.
pub open spec fn same_path(left: Seq<char>, right: Seq<char>) -> bool {
    components(left) == components(right)
}

/// Whether the components of one path begin with those of another.
pub open spec fn lies_under(path: Seq<char>, base: Seq<char>) -> bool {
    components(base).is_prefix_of(components(path))
}

/// A name in a directory.
pub open spec fn within(directory: Seq<char>, name: Seq<char>) -> Seq<char> {
    if directory.len() == 0 {
        name
    } else if directory.last() == '/' {
        directory + name
    } else {
        directory + seq!['/'] + name
    }
}

/// The path that has the given components, written without anything that does
/// not matter.
pub open spec fn path_of(parts: Seq<Seq<char>>) -> Seq<char>
    decreases parts.len(),
{
    if parts.len() == 0 {
        Seq::empty()
    } else {
        within(path_of(parts.drop_last()), parts.last())
    }
}

/// The components of a path.
pub fn path_components(path: &str) -> (parts: Vec<String>)
    ensures
        text::texts(parts@) == components(path@),
{
    let chars = text::chars_of(path);
    let ghost keep = |piece: Seq<char>| is_component(piece);
    let mut parts: Vec<String> = Vec::new();
    if chars.len() > 0 && chars[0] == '/' {
        let root = text::text_between(&chars, 0, 1);
        assert(root@ =~= seq!['/']);
        parts.push(root);
    } else if chars.len() > 0 && chars[0] == '.' && (chars.len() == 1 || chars[1] == '/') {
        let here = text::text_between(&chars, 0, 1);
        assert(here@ =~= seq!['.']);
        parts.push(here);
    }
    assert(text::texts(parts@) =~= path_start(path@));
    let mut from: usize = 0;
    let mut done = false;
    assert(text::texts(parts@) + pieces_from(path@, 0).filter(keep) == components(path@));
    while !done
        invariant
            chars@ == path@,
            keep == (|piece: Seq<char>| is_component(piece)),
            from <= chars@.len(),
            !done ==> text::texts(parts@) + pieces_from(path@, from as int).filter(keep)
                == components(path@),
            done ==> text::texts(parts@) == components(path@),
        decreases chars@.len() - from, (if done { 0int } else { 1int }),
    {
        proof {
            text::lemma_first_char(path@, '/', from as int);
        }
        let ghost before = parts@;
        match text::find_char(&chars, '/', from) {
            Some(end) => {
                assert(end < chars.len());
                let piece = text::text_between(&chars, from, end);
                proof {
                    lemma_filter_first(piece@, pieces_from(path@, end + 1), keep);
                }
                if component(&piece) {
                    parts.push(piece);
                    assert(text::texts(parts@) =~= text::texts(before).push(piece@));
                    assert(text::texts(before).push(piece@) + pieces_from(path@, end + 1).filter(
                        keep,
                    ) =~= text::texts(before) + (seq![piece@] + pieces_from(
                        path@,
                        end + 1,
                    ).filter(keep)));
                }
                from = end + 1;
            },
            None => {
                let piece = text::text_between(&chars, from, chars.len());
                proof {
                    assert(piece@ =~= path@.skip(from as int));
                    lemma_filter_first(piece@, Seq::empty(), keep);
                    assert(seq![piece@] + Seq::<Seq<char>>::empty() =~= seq![piece@]);
                    reveal(Seq::filter);
                }
                if component(&piece) {
                    parts.push(piece);
                    assert(text::texts(parts@) =~= text::texts(before).push(piece@));
                    assert(text::texts(before).push(piece@) =~= text::texts(before) + seq![piece@]);
                } else {
                    assert(text::texts(before) + Seq::<Seq<char>>::empty() =~= text::texts(before));
                }
                done = true;
            },
        }
    }
    parts
}

proof fn lemma_filter_first(first: Seq<char>, rest: Seq<Seq<char>>, keep: spec_fn(Seq<char>) -> bool)
    ensures
        (seq![first] + rest).filter(keep) == if keep(first) {
            seq![first] + rest.filter(keep)
        } else {
            rest.filter(keep)
        },
    decreases rest.len(),
{
    reveal_with_fuel(Seq::filter, 2);
    let all = seq![first] + rest;
    if rest.len() == 0 {
        assert(all =~= seq![first]);
        assert(all.drop_last() =~= Seq::<Seq<char>>::empty());
        assert(all.filter(keep) =~= if keep(first) {
            seq![first] + rest.filter(keep)
        } else {
            rest.filter(keep)
        });
    } else {
        assert(all.drop_last() =~= seq![first] + rest.drop_last());
        lemma_filter_first(first, rest.drop_last(), keep);
        assert(all.filter(keep) =~= if keep(first) {
            seq![first] + rest.filter(keep)
        } else {
            rest.filter(keep)
        });
    }
}

fn component(piece: &String) -> (named: bool)
    ensures
        named == is_component(piece@),
{
    proof {
        reveal_strlit(".");
        assert("."@ =~= seq!['.']);
    }
    !piece.as_str().is_empty() && !text::text_eq(piece.as_str(), ".")
}

/// Whether two lists hold the same texts up to a length.
fn same_texts(left: &Vec<String>, right: &Vec<String>, length: usize) -> (equal: bool)
    requires
        length <= left@.len(),
        length <= right@.len(),
    ensures
        equal == (text::texts(left@).take(length as int) == text::texts(right@).take(
            length as int,
        )),
{
    let mut index: usize = 0;
    while index < length
        invariant
            index <= length,
            length <= left@.len(),
            length <= right@.len(),
            forall|i: int|
                0 <= i < index ==> #[trigger] text::texts(left@)[i] == text::texts(right@)[i],
        decreases length - index,
    {
        if !text::text_eq(left[index].as_str(), right[index].as_str()) {
            proof {
                let first = text::texts(left@).take(length as int);
                let second = text::texts(right@).take(length as int);
                assert(first[index as int] != second[index as int]);
            }
            return false;
        }
        index += 1;
    }
    assert(text::texts(left@).take(length as int) =~= text::texts(right@).take(length as int));
    true
}

/// Whether two lists hold the same texts.
pub fn equal_texts(left: &Vec<String>, right: &Vec<String>) -> (equal: bool)
    ensures
        equal == (text::texts(left@) == text::texts(right@)),
{
    assert(text::texts(left@).take(left@.len() as int) =~= text::texts(left@));
    assert(text::texts(right@).take(right@.len() as int) =~= text::texts(right@));
    assert(text::texts(left@).len() == left@.len());
    assert(text::texts(right@).len() == right@.len());
    left.len() == right.len() && same_texts(left, right, left.len())
}

/// Whether two paths have the same components.
pub fn equal_paths(left: &str, right: &str) -> (equal: bool)
    ensures
        equal == same_path(left@, right@),
{
    let first = path_components(left);
    let second = path_components(right);
    equal_texts(&first, &second)
}

/// Whether the components of one path begin with those of another.
pub fn starts_with(path: &str, base: &str) -> (under: bool)
    ensures
        under == lies_under(path@, base@),
{
    let parts = path_components(path);
    let first = path_components(base);
    proof {
        assert(text::texts(parts@).len() == parts@.len());
        assert(text::texts(first@).len() == first@.len());
        assert(text::texts(first@).take(first@.len() as int) =~= text::texts(first@));
    }
    if first.len() > parts.len() {
        return false;
    }
    let equal = same_texts(&parts, &first, first.len());
    proof {
        let whole = components(path@);
        let prefix = components(base@);
        assert(prefix.is_prefix_of(whole) <==> whole.take(prefix.len() as int) == prefix) by {
            if whole.take(prefix.len() as int) == prefix {
                assert(prefix =~= whole.subrange(0, prefix.len() as int));
            }
            if prefix.is_prefix_of(whole) {
                assert(whole.take(prefix.len() as int) =~= prefix);
            }
        }
    }
    equal
}

/// A name in a directory.
pub fn join(directory: &str, name: &str) -> (path: String)
    ensures
        path@ == within(directory@, name@),
{
    let chars = text::chars_of(directory);
    let mut path = directory.to_owned();
    if chars.len() > 0 && chars[chars.len() - 1] != '/' {
        path.push('/');
        assert(path@ =~= directory@ + seq!['/']);
    }
    path.append(name);
    assert(path@ =~= within(directory@, name@));
    path
}

/// The path that has the given components.
pub fn path_from(parts: &Vec<String>) -> (path: String)
    ensures
        path@ == path_of(text::texts(parts@)),
{
    let mut path = String::new();
    let mut index: usize = 0;
    assert(text::texts(parts@).take(0) =~= Seq::<Seq<char>>::empty());
    while index < parts.len()
        invariant
            index <= parts@.len(),
            path@ == path_of(text::texts(parts@).take(index as int)),
        decreases parts@.len() - index,
    {
        proof {
            assert(text::texts(parts@).take(index + 1).drop_last() =~= text::texts(parts@).take(
                index as int,
            ));
        }
        path = join(path.as_str(), parts[index].as_str());
        index += 1;
    }
    assert(text::texts(parts@).take(parts@.len() as int) =~= text::texts(parts@));
    path
}

// ---------------------------------------------------------------------------
// Names in directories
// ---------------------------------------------------------------------------

/// Whether a text can be the name of something in a directory.
pub open spec fn is_name(name: Seq<char>) -> bool {
    is_component(name) && !name.contains('/')
}

proof fn lemma_pieces_behind_slash(front: Seq<char>, name: Seq<char>, from: int)
    requires
        !name.contains('/'),
        0 <= from <= front.len(),
    ensures
        pieces_from(front + seq!['/'] + name, from) == pieces_from(front, from).push(name),
    decreases front.len() - from,
{
    let whole = front + seq!['/'] + name;
    text::lemma_first_char(front, '/', from);
    text::lemma_first_char(whole, '/', from);
    assert(forall|i: int| 0 <= i < front.len() ==> #[trigger] whole[i] == front[i]);
    assert(whole[front.len() as int] == '/');
    match text::first_char(front, '/', from) {
        Some(end) => {
            assert(whole[end] == front[end]);
            let found = text::first_char(whole, '/', from)->0;
            assert(found < end ==> whole[found] == front[found]);
            assert(text::first_char(whole, '/', from) == Some(end));
            assert(whole.subrange(from, end) =~= front.subrange(from, end));
            lemma_pieces_behind_slash(front, name, end + 1);
            assert(pieces_from(whole, from) =~= pieces_from(front, from).push(name));
        },
        None => {
            let slash = front.len() as int;
            assert(text::first_char(whole, '/', from) == Some(slash));
            assert(whole.subrange(from, slash) =~= front.skip(from));
            text::lemma_first_char(whole, '/', slash + 1);
            assert forall|i: int| slash < i < whole.len() implies #[trigger] whole[i] != '/' by {
                assert(whole[i] == name[i - slash - 1]);
            }
            assert(text::first_char(whole, '/', slash + 1) is None);
            assert(whole.skip(slash + 1) =~= name);
            assert(pieces_from(whole, slash + 1) =~= seq![name]);
            assert(pieces_from(whole, from) =~= pieces_from(front, from).push(name));
        },
    }
}

/// A name in a directory has the directory's components and then itself.
pub proof fn law_name_is_the_last_component(directory: Seq<char>, name: Seq<char>)
    requires
        is_name(name),
    ensures
        components(within(directory, name)) == components(directory).push(name),
{
    let keep = |piece: Seq<char>| is_component(piece);
    let nothing = Seq::<char>::empty();
    reveal_with_fuel(Seq::filter, 2);
    if directory.len() == 0 {
        text::lemma_first_char(name, '/', 0);
        text::lemma_first_char(directory, '/', 0);
        assert(forall|i: int| 0 <= i < name.len() ==> #[trigger] name[i] != '/');
        assert(name.skip(0) =~= name);
        assert(directory.skip(0) =~= nothing);
        assert(pieces_from(name, 0) =~= seq![name]);
        assert(pieces_from(directory, 0) =~= seq![nothing]);
        assert(seq![name].drop_last() =~= Seq::<Seq<char>>::empty());
        assert(seq![nothing].drop_last() =~= Seq::<Seq<char>>::empty());
        if name.len() == 1 && name[0] == '.' {
            assert(name =~= seq!['.']);
        }
        assert(components(name) =~= components(directory).push(name));
    } else {
        let front = if directory.last() == '/' {
            directory.drop_last()
        } else {
            directory
        };
        lemma_pieces_behind_slash(front, name, 0);
        let pieces = pieces_from(front, 0);
        assert(pieces.push(name).drop_last() =~= pieces);
        assert(within(directory, name) =~= front + seq!['/'] + name);
        if directory.last() == '/' {
            lemma_pieces_behind_slash(front, nothing, 0);
            assert(front + seq!['/'] + nothing =~= directory);
            assert(pieces.push(nothing).drop_last() =~= pieces);
        }
        assert(within(directory, name)[0] == directory[0]);
        assert(path_start(within(directory, name)) =~= path_start(directory));
        assert(components(within(directory, name)) =~= components(directory).push(name));
    }
}

/// Whether components can be those of a path: names, but that the first may be
/// the root or the current directory.
pub open spec fn are_components(parts: Seq<Seq<char>>) -> bool {
    &&& parts.len() > 0 ==> parts[0] == seq!['/'] || parts[0] == seq!['.'] || is_name(parts[0])
    &&& forall|i: int| 0 < i < parts.len() ==> is_name(#[trigger] parts[i])
}

proof fn lemma_pieces_hold_no_slash(path: Seq<char>, from: int)
    requires
        0 <= from,
    ensures
        forall|i: int|
            0 <= i < pieces_from(path, from).len() ==> !(#[trigger] pieces_from(
                path,
                from,
            )[i]).contains('/'),
    decreases path.len() - from,
{
    if from <= path.len() {
        text::lemma_first_char(path, '/', from);
        let pieces = pieces_from(path, from);
        match text::first_char(path, '/', from) {
            Some(end) => {
                lemma_pieces_hold_no_slash(path, end + 1);
                let rest = pieces_from(path, end + 1);
                assert forall|i: int| 0 <= i < pieces.len() implies !(
                #[trigger] pieces[i]).contains('/') by {
                    if i > 0 {
                        assert(pieces[i] == rest[i - 1]);
                    } else {
                        assert(pieces[0] == path.subrange(from, end));
                        assert(forall|j: int|
                            0 <= j < end - from ==> #[trigger] pieces[0][j] == path[from + j]);
                    }
                }
            },
            None => {
                assert(pieces[0] == path.skip(from));
                assert(forall|j: int|
                    0 <= j < path.len() - from ==> #[trigger] pieces[0][j] == path[from + j]);
            },
        }
    }
}

/// The components of a path are components of a path.
pub proof fn lemma_components_are_proper(path: Seq<char>)
    ensures
        are_components(components(path)),
{
    let keep = |piece: Seq<char>| is_component(piece);
    let pieces = pieces_from(path, 0);
    let named = pieces.filter(keep);
    lemma_pieces_hold_no_slash(path, 0);
    assert forall|i: int| 0 <= i < named.len() implies is_name(#[trigger] named[i]) by {
        pieces.lemma_filter_pred(keep, i);
        assert(named.contains(named[i]));
        pieces.lemma_filter_contains_rev(keep, named[i]);
        let j = choose|j: int| 0 <= j < pieces.len() && pieces[j] == named[i];
        assert(!pieces[j].contains('/'));
    }
    let start = path_start(path);
    let parts = components(path);
    assert forall|i: int| 0 < i < parts.len() implies is_name(#[trigger] parts[i]) by {
        assert(parts[i] == named[i - start.len()]);
    }
    if parts.len() > 0 && start.len() == 0 {
        assert(parts[0] == named[0]);
    }
}

/// A path that is written from components has those components.
pub proof fn law_path_has_its_components(parts: Seq<Seq<char>>)
    requires
        are_components(parts),
    ensures
        components(path_of(parts)) == parts,
    decreases parts.len(),
{
    let keep = |piece: Seq<char>| is_component(piece);
    let nothing = Seq::<char>::empty();
    if parts.len() == 0 {
        text::lemma_first_char(nothing, '/', 0);
        assert(nothing.skip(0) =~= nothing);
        assert(pieces_from(nothing, 0) =~= seq![nothing]);
        reveal_with_fuel(Seq::filter, 2);
        assert(seq![nothing].drop_last() =~= Seq::<Seq<char>>::empty());
        assert(components(nothing) =~= parts);
    } else {
        let front = parts.drop_last();
        let name = parts.last();
        if is_name(name) {
            assert(are_components(front));
            law_path_has_its_components(front);
            law_name_is_the_last_component(path_of(front), name);
            assert(front.push(name) =~= parts);
        } else {
            assert(parts.len() == 1);
            assert(path_of(front) =~= nothing);
            assert(path_of(parts) =~= name);
            reveal_with_fuel(Seq::filter, 3);
            text::lemma_first_char(name, '/', 0);
            text::lemma_first_char(name, '/', 1);
            if name == seq!['/'] {
                assert(name[0] == '/');
                assert(name.subrange(0, 0) =~= nothing);
                assert(name.skip(1) =~= nothing);
                assert(pieces_from(name, 1) =~= seq![nothing]);
                assert(pieces_from(name, 0) =~= seq![nothing, nothing]);
                assert(seq![nothing, nothing].drop_last() =~= seq![nothing]);
                assert(seq![nothing].drop_last() =~= Seq::<Seq<char>>::empty());
            } else {
                assert(name[0] == '.');
                assert(name.skip(0) =~= name);
                assert(pieces_from(name, 0) =~= seq![name]);
                assert(seq![name].drop_last() =~= Seq::<Seq<char>>::empty());
            }
            assert(components(name) =~= seq![name]);
            assert(parts =~= seq![name]);
        }
    }
}

/// A name is put behind a directory with one slash between them, and behind
/// nothing as it is.
pub proof fn law_names_are_put_behind_one_slash(directory: Seq<char>, name: Seq<char>)
    ensures
        within(Seq::empty(), name) == name,
        within(directory.push('/'), name) == directory + seq!['/'] + name,
        directory.len() > 0 && directory[directory.len() - 1] != '/' ==> within(directory, name)
            == directory + seq!['/'] + name,
{
    assert(directory.push('/') + name =~= directory + seq!['/'] + name);
}

/// A slash at the end of a path does not matter, however many there are, nor
/// does a dot between slashes or at the end.
pub proof fn law_slashes_and_dots_at_the_end_do_not_matter(path: Seq<char>)
    requires
        path.len() > 0,
    ensures
        components(path + seq!['/']) == components(path),
        components(path + seq!['/', '.']) == components(path),
        components(path + seq!['/', '.', '/']) == components(path),
        same_path(path + seq!['/'], path),
{
    let nothing = Seq::<char>::empty();
    let dot = seq!['.'];
    let pieces = pieces_from(path, 0);
    reveal(Seq::filter);
    lemma_pieces_behind_slash(path, nothing, 0);
    assert(path + seq!['/'] + nothing =~= path + seq!['/']);
    assert(pieces.push(nothing).drop_last() =~= pieces);
    assert(path_start(path + seq!['/']) =~= path_start(path));
    lemma_pieces_behind_slash(path, dot, 0);
    let dotted = path + seq!['/'] + dot;
    assert(dotted =~= path + seq!['/', '.']);
    assert(pieces.push(dot).drop_last() =~= pieces);
    assert(path_start(dotted) =~= path_start(path));
    lemma_pieces_behind_slash(dotted, nothing, 0);
    assert(dotted + seq!['/'] + nothing =~= path + seq!['/', '.', '/']);
    assert(pieces_from(dotted, 0).push(nothing).drop_last() =~= pieces_from(dotted, 0));
    assert(path_start(path + seq!['/', '.', '/']) =~= path_start(path));
}

/// A path that begins with a slash begins at the root, one that begins with a
/// lone dot begins where one is, and any other with a name. Only an empty piece
/// and a lone dot are no components: two dots are one.
pub proof fn law_beginnings_tell_where_a_path_starts(rest: Seq<char>, piece: Seq<char>)
    ensures
        components(seq!['/'] + rest).len() > 0,
        components(seq!['/'] + rest)[0] == seq!['/'],
        components(seq!['.', '/'] + rest).len() > 0,
        components(seq!['.', '/'] + rest)[0] == seq!['.'],
        is_component(piece) <==> piece.len() > 1 || (piece.len() == 1 && piece[0] != '.'),
{
    assert((seq!['/'] + rest)[0] == '/');
    assert((seq!['.', '/'] + rest)[0] == '.');
    assert((seq!['.', '/'] + rest)[1] == '/');
    if piece.len() == 1 && piece[0] == '.' {
        assert(piece =~= seq!['.']);
    }
}

/// A path lies under another exactly if it has the components of the other and
/// then, perhaps, more; two paths are the same exactly if they have the same.
pub proof fn law_paths_compare_by_components(path: Seq<char>, base: Seq<char>)
    ensures
        lies_under(path, base) <==> components(base).len() <= components(path).len()
            && components(path).take(components(base).len() as int) == components(base),
        same_path(path, base) <==> lies_under(path, base) && lies_under(base, path),
        same_path(path, base) <==> components(path) == components(base),
{
    let parts = components(path);
    let first = components(base);
    if first.len() <= parts.len() {
        assert(parts.take(first.len() as int) =~= parts.subrange(0, first.len() as int));
    }
    assert(parts.take(parts.len() as int) =~= parts);
    assert(first.take(first.len() as int) =~= first);
}

} // verus!
