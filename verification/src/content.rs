use vstd::prelude::*;

verus! {

/// Classification flags on a content entity: a small struct of booleans
/// with explicit toggles.
pub struct Flags {
    pub religious: bool,
    pub political: bool,
    pub racist: bool,
    pub sexist: bool,
}

impl Clone for Flags {
    fn clone(&self) -> (r: Self)
        ensures
            r == *self,
    {
        Flags {
            religious: self.religious,
            political: self.political,
            racist: self.racist,
            sexist: self.sexist,
        }
    }
}

impl Flags {
    pub fn new(religious: bool, political: bool, racist: bool, sexist: bool) -> (r: Self)
        ensures
            r.religious == religious,
            r.political == political,
            r.racist == racist,
            r.sexist == sexist,
    {
        Flags { religious, political, racist, sexist }
    }

    /// All flags start cleared.
    pub fn default() -> (r: Self)
        ensures
            !r.religious && !r.political && !r.racist && !r.sexist,
    {
        Flags { religious: false, political: false, racist: false, sexist: false }
    }

    /// Toggles the religious flag and returns the updated set.
    pub fn religious_coup(&mut self) -> (r: Self)
        ensures
            final(self).religious == !old(self).religious,
            final(self).political == old(self).political,
            final(self).racist == old(self).racist,
            final(self).sexist == old(self).sexist,
            r == *final(self),
    {
        self.religious = !self.religious;
        self.clone()
    }

    /// Toggles the political flag and returns the updated set.
    pub fn political_coup(&mut self) -> (r: Self)
        ensures
            final(self).political == !old(self).political,
            final(self).religious == old(self).religious,
            final(self).racist == old(self).racist,
            final(self).sexist == old(self).sexist,
            r == *final(self),
    {
        self.political = !self.political;
        self.clone()
    }

    /// Toggles the racist flag and returns the updated set.
    pub fn racist_coup(&mut self) -> (r: Self)
        ensures
            final(self).racist == !old(self).racist,
            final(self).religious == old(self).religious,
            final(self).political == old(self).political,
            final(self).sexist == old(self).sexist,
            r == *final(self),
    {
        self.racist = !self.racist;
        self.clone()
    }

    /// Toggles the sexist flag and returns the updated set.
    pub fn sexist_coup(&mut self) -> (r: Self)
        ensures
            final(self).sexist == !old(self).sexist,
            final(self).religious == old(self).religious,
            final(self).political == old(self).political,
            final(self).racist == old(self).racist,
            r == *final(self),
    {
        self.sexist = !self.sexist;
        self.clone()
    }
}

/// The tag every content entity starts with.
pub fn default_tags() -> (r: Vec<String>)
    ensures
        r@.len() == 1,
        r@[0]@ == "general"@,
{
    let mut v: Vec<String> = Vec::new();
    v.push(String::from_str("general"));
    v
}

/// Trailing metadata of a content entity: its flags, author, tags and
/// language.
pub struct Tail {
    pub flags: Flags,
    pub author: String,
    pub tags: Vec<String>,
    pub lang: String,
}

/// Marker for body types a content entity may carry.
pub trait Paws<B> {

}

impl Tail {
    pub fn new(flags: Flags, lang: &String, author: String, tags: &Vec<String>) -> (r: Self)
        ensures
            r.flags == flags,
            r.lang@ == lang@,
            r.author == author,
            r.tags@.len() == tags@.len(),
            forall|i: int| 0 <= i < tags@.len() ==> r.tags@[i]@ == (#[trigger] tags@[i])@,
    {
        let mut copied: Vec<String> = Vec::new();
        let n = tags.len();
        let mut i: usize = 0;
        while i < n
            invariant
                n == tags@.len(),
                0 <= i <= n,
                copied@.len() == i,
                forall|j: int| 0 <= j < i ==> copied@[j]@ == (#[trigger] tags@[j])@,
            decreases n - i,
        {
            copied.push(tags[i].clone());
            i = i + 1;
        }
        Tail { flags, lang: lang.clone(), author, tags: copied }
    }
}

} // verus!
