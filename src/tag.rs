use vstd::prelude::*;
use vstd::std_specs::cmp::PartialEqSpec;

verus! {

/// The characters of each tag name, in order.
pub open spec fn names_view(names: Seq<&str>) -> Seq<Seq<char>> {
    names.map_values(|n: &str| n@)
}

/// The tags of type `T` that `names` convert to, in the order of the names;
/// names that do not convert are skipped.
pub open spec fn parsed_tags<T: Tag>(names: Seq<&str>) -> Seq<T>
    decreases names.len(),
{
    if names.len() == 0 {
        Seq::empty()
    } else {
        let rest = parsed_tags::<T>(names.drop_last());
        match T::parse(names.last()) {
            Some(t) => rest.push(t),
            None => rest,
        }
    }
}

/// The first tag of type `T` that `names` convert to, if any.
pub open spec fn first_tag<T: Tag>(names: Seq<&str>) -> Option<T> {
    let tags = parsed_tags::<T>(names);
    if tags.len() > 0 {
        Some(tags[0])
    } else {
        None
    }
}

/// Whether `tags` holds a tag equal to `tag`.
pub open spec fn has_equal_tag<T: PartialEq>(tags: Seq<T>, tag: &T) -> bool {
    exists|k: int| 0 <= k < tags.len() && #[trigger] tags[k].eq_spec(tag)
}

/// Converting a joined list of names yields the tags of the first part
/// followed by those of the second.
pub proof fn lemma_parsed_tags_append<T: Tag>(a: Seq<&str>, b: Seq<&str>)
    ensures
        parsed_tags::<T>(a + b) == parsed_tags::<T>(a) + parsed_tags::<T>(b),
    decreases b.len(),
{
    if b.len() == 0 {
        assert(a + b =~= a);
    } else {
        lemma_parsed_tags_append::<T>(a, b.drop_last());
        assert((a + b).drop_last() =~= a + b.drop_last());
        assert((a + b).last() == b.last());
    }
}

/// Each tag that names convert to is the conversion of one of the names, and
/// there are never more tags than names.
pub proof fn lemma_parsed_tags_come_from_names<T: Tag>(names: Seq<&str>)
    ensures
        parsed_tags::<T>(names).len() <= names.len(),
        forall|k: int| 0 <= k < parsed_tags::<T>(names).len() ==> exists|j: int|
            0 <= j < names.len() && T::parse(#[trigger] names[j]) == Some(
                #[trigger] parsed_tags::<T>(names)[k],
            ),
    decreases names.len(),
{
    if names.len() > 0 {
        let init = names.drop_last();
        lemma_parsed_tags_come_from_names::<T>(init);
        let tags = parsed_tags::<T>(names);
        assert forall|k: int| 0 <= k < tags.len() implies exists|j: int|
            0 <= j < names.len() && T::parse(#[trigger] names[j]) == Some(
                #[trigger] tags[k],
            ) by {
            if k < parsed_tags::<T>(init).len() {
                let j = choose|j: int|
                    0 <= j < init.len() && T::parse(#[trigger] init[j]) == Some(
                        #[trigger] parsed_tags::<T>(init)[k],
                    );
                assert(names[j] == init[j]);
            } else {
                assert(names[names.len() - 1] == names.last());
            }
        }
    }
}

/// The first tag is the head of all the tags, and there is none exactly when
/// there are no tags at all.
pub proof fn lemma_first_tag_heads_tags<T: Tag>(names: Seq<&str>)
    ensures
        first_tag::<T>(names) is None <==> parsed_tags::<T>(names).len() == 0,
        parsed_tags::<T>(names).len() > 0 ==> first_tag::<T>(names) == Some(
            parsed_tags::<T>(names)[0],
        ),
{
}

/// A name is among the tag names exactly when one of the listed strings holds
/// its characters.
pub proof fn lemma_tag_name_listed(names: Seq<&str>, name: &str)
    ensures
        names_view(names).contains(name@) <==> exists|j: int|
            0 <= j < names.len() && (#[trigger] names[j])@ == name@,
{
    if names_view(names).contains(name@) {
        let j = choose|j: int| 0 <= j < names_view(names).len() && names_view(names)[j] == name@;
        assert(names[j]@ == name@);
    }
    if exists|j: int| 0 <= j < names.len() && (#[trigger] names[j])@ == name@ {
        let j = choose|j: int| 0 <= j < names.len() && (#[trigger] names[j])@ == name@;
        assert(names_view(names)[j] == name@);
    }
}

/// Whether two strings hold the same characters.
fn str_equal(a: &str, b: &str) -> (r: bool)
    ensures
        r == (a@ == b@),
{
    let n = a.unicode_len();
    if n != b.unicode_len() {
        return false;
    }
    let mut i: usize = 0;
    while i < n
        invariant
            n == a@.len(),
            n == b@.len(),
            i <= n,
            a@.take(i as int) == b@.take(i as int),
        decreases n - i,
    {
        if a.get_char(i) != b.get_char(i) {
            return false;
        }
        assert(a@.take(i + 1) =~= a@.take(i as int).push(a@[i as int]));
        assert(b@.take(i + 1) =~= b@.take(i as int).push(b@[i as int]));
        i = i + 1;
    }
    assert(a@ =~= a@.take(n as int));
    assert(b@ =~= b@.take(n as int));
    true
}

/// A type of tag that some tag names stand for.
pub trait Tag: Sized {
    /// The tag that a name stands for, if it stands for one of this type:
    /// what `from` returns on it.
    spec fn parse(name: &str) -> Option<Self>;

    /// Convert a tag name (alphanumeric and underscore characters) to a tag of this type.
    fn from(string: &str) -> (r: Option<Self>)
        ensures
            r == Self::parse(string),
    ;
}

/// A node or option that carries a list of tag names.
pub trait Tagged {
    /// The tag names, in the order they were given.
    spec fn tag_names(&self) -> Seq<&'static str>;

    /// The tag names, in the order they were given.
    fn get_tag_names(&self) -> (r: &'static [&'static str])
        ensures
            r@ == self.tag_names(),
    ;

    /// Whether `tag` is one of the tag names, compared character by character.
    fn includes_tag_name(&self, tag: &str) -> (r: bool)
        ensures
            r == names_view(self.tag_names()).contains(tag@),
    {
        let names = self.get_tag_names();
        let mut i: usize = 0;
        while i < names.len()
            invariant
                i <= names@.len(),
                names@ == self.tag_names(),
                forall|j: int| 0 <= j < i ==> names@[j]@ != tag@,
            decreases names@.len() - i,
        {
            if str_equal(names[i], tag) {
                assert(names_view(self.tag_names())[i as int] == tag@);
                return true;
            }
            i = i + 1;
        }
        assert forall|j: int| 0 <= j < self.tag_names().len() implies names_view(self.tag_names())[j] != tag@ by {
            assert(names_view(self.tag_names())[j] == names@[j]@);
        }
        false
    }

    /// Returns all the instances of a tag of type ``T``.
    /// Best used for tags that are not unique (such as choice requirements).
    fn get_tags<T: Tag>(&self) -> (r: Vec<T>)
        ensures
            r@ == parsed_tags::<T>(self.tag_names()),
    {
        let names = self.get_tag_names();
        let ghost all = self.tag_names();
        let mut tags: Vec<T> = Vec::new();
        let mut i: usize = 0;
        while i < names.len()
            invariant
                i <= names@.len(),
                names@ == all,
                all == self.tag_names(),
                tags@ == parsed_tags::<T>(all.take(i as int)),
            decreases names@.len() - i,
        {
            assert(all.take(i + 1).drop_last() =~= all.take(i as int));
            assert(all.take(i + 1).last() == names@[i as int]);
            match T::from(names[i]) {
                Some(t) => tags.push(t),
                None => {},
            }
            i = i + 1;
        }
        assert(all.take(names@.len() as int) =~= all);
        tags
    }
    /// Returns the first instance of a tag of type ``T``, if it exists.
    /// Best used for tags that are unique (such as a speaker name).
    fn get_tag<T: Tag>(&self) -> (r: Option<T>)
        ensures
            r == first_tag::<T>(self.tag_names()),
    {
        let names = self.get_tag_names();
        let ghost all = self.tag_names();
        let mut i: usize = 0;
        while i < names.len()
            invariant
                i <= names@.len(),
                names@ == all,
                all == self.tag_names(),
                parsed_tags::<T>(all.take(i as int)).len() == 0,
            decreases names@.len() - i,
        {
            assert(all.take(i + 1).drop_last() =~= all.take(i as int));
            assert(all.take(i + 1).last() == names@[i as int]);
            match T::from(names[i]) {
                Some(t) => {
                    proof {
                        lemma_parsed_tags_append::<T>(all.take(i + 1), all.skip(i + 1));
                        assert(all.take(i + 1) + all.skip(i + 1) =~= all);
                        assert(parsed_tags::<T>(all.take(i + 1)) =~= seq![t]);
                        assert(parsed_tags::<T>(all)[0] == t);
                    }
                    return Some(t);
                },
                None => {},
            }
            i = i + 1;
        }
        assert(all.take(names@.len() as int) =~= all);
        None
    }

    /// Whether some tag name converts to a tag of type ``T`` equal to `tag`.
    fn includes_tag<T: Tag + PartialEq>(&self, tag: &T) -> (r: bool)
        ensures
            T::obeys_eq_spec() ==> r == has_equal_tag(parsed_tags::<T>(self.tag_names()), tag),
    {
        let names = self.get_tag_names();
        let ghost all = self.tag_names();
        let mut i: usize = 0;
        while i < names.len()
            invariant
                i <= names@.len(),
                names@ == all,
                all == self.tag_names(),
                T::obeys_eq_spec() ==> !has_equal_tag(parsed_tags::<T>(all.take(i as int)), tag),
            decreases names@.len() - i,
        {
            assert(all.take(i + 1).drop_last() =~= all.take(i as int));
            assert(all.take(i + 1).last() == names@[i as int]);
            let ghost before = parsed_tags::<T>(all.take(i as int));
            match T::from(names[i]) {
                Some(t) => {
                    if t.eq(tag) {
                        proof {
                            lemma_parsed_tags_append::<T>(all.take(i + 1), all.skip(i + 1));
                            assert(all.take(i + 1) + all.skip(i + 1) =~= all);
                            let whole = parsed_tags::<T>(all);
                            assert(parsed_tags::<T>(all.take(i + 1)) == before.push(t));
                            assert(whole[before.len() as int] == t);
                            if T::obeys_eq_spec() {
                                assert(whole[before.len() as int].eq_spec(tag));
                            }
                        }
                        return true;
                    }
                    proof {
                        let now = parsed_tags::<T>(all.take(i + 1));
                        assert(now == before.push(t));
                        if T::obeys_eq_spec() {
                            assert forall|k: int| 0 <= k < now.len() implies !now[k].eq_spec(tag) by {
                                if k < before.len() {
                                    assert(now[k] == before[k]);
                                }
                            }
                        }
                    }
                },
                None => {},
            }
            i = i + 1;
        }
        assert(all.take(names@.len() as int) =~= all);
        false
    }
}

} // verus!
