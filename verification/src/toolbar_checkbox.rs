//! The toolbar check box and the caption model behind it.
//!
//! A caption may carry a hot key: with the alt-key extraction method,
//! the first `&` that stands before a letter or digit is removed from
//! the text, and that letter or digit becomes the hot key, at the
//! position where it now stands.

use vstd::prelude::*;
use crate::text::{chars_of, string_from_chars};

verus! {

/// Whether `c` can serve as a hot key.
pub open spec fn is_key_char(c: char) -> bool {
    ('a' <= c && c <= 'z') || ('A' <= c && c <= 'Z') || ('0' <= c && c <= '9')
}

/// Exec counterpart of [`is_key_char`].
pub fn is_key_char_exec(c: char) -> (r: bool)
    ensures
        r == is_key_char(c),
{
    (c >= 'a' && c <= 'z') || (c >= 'A' && c <= 'Z') || (c >= '0' && c <= '9')
}

/// The position of the first `&` that stands before a letter or
/// digit, or the length of the text when there is none.
pub open spec fn hotkey_mark(s: Seq<char>, i: int) -> int
    decreases s.len() - i,
{
    if i < 0 || i + 1 >= s.len() {
        s.len() as int
    } else if s[i] == '&' && is_key_char(s[i + 1]) {
        i
    } else {
        hotkey_mark(s, i + 1)
    }
}

/// A position before which nothing marks a hot key, and which either
/// marks one itself or is the end of the text, is the mark itself.
pub proof fn lemma_hotkey_mark_is(s: Seq<char>, i: int, k: int)
    requires
        0 <= i <= k <= s.len(),
        forall|j: int|
            i <= j < k && j + 1 < s.len() ==> !(#[trigger] s[j] == '&' && is_key_char(s[j + 1])),
        k < s.len() ==> (s[k] == '&' && k + 1 < s.len() && is_key_char(s[k + 1])),
        k == s.len() || k + 1 < s.len(),
    ensures
        hotkey_mark(s, i) == k,
    decreases s.len() - i,
{
    if i + 1 >= s.len() {
        assert(k == s.len() || (k < s.len() && k + 1 < s.len()));
    } else if s[i] == '&' && is_key_char(s[i + 1]) {
        assert(k == i);
    } else {
        lemma_hotkey_mark_is(s, i + 1, k);
    }
}

/// The caption text once its hot-key `&` is removed.
pub open spec fn stripped_of(s: Seq<char>) -> Seq<char> {
    let k = hotkey_mark(s, 0);
    if k == s.len() {
        s
    } else {
        s.take(k) + s.skip(k + 1)
    }
}

/// The hot key of a caption, if one is marked.
pub open spec fn hotkey_of(s: Seq<char>) -> Option<char> {
    let k = hotkey_mark(s, 0);
    if k == s.len() {
        Option::None
    } else {
        Option::Some(s[k + 1])
    }
}

/// Where the hot key stands in the stripped text.
pub open spec fn hotkey_pos_of(s: Seq<char>) -> Option<int> {
    let k = hotkey_mark(s, 0);
    if k == s.len() {
        Option::None
    } else {
        Option::Some(k)
    }
}

/// How a caption reads its hot key.
#[derive(Clone, Copy, PartialEq, Eq, Structural, Debug)]
pub enum ExtractHotKeyMethod {
    NoHotKey,
    AltPlusKey,
}

/// A caption: its visible text, the character count, and the hot key
/// when one was marked.
pub struct Caption {
    text: String,
    count: usize,
    hotkey: Option<char>,
    hotkey_pos: Option<usize>,
}

impl Caption {
    pub closed spec fn text_spec(&self) -> Seq<char> {
        self.text@
    }

    pub closed spec fn hotkey_spec(&self) -> Option<char> {
        self.hotkey
    }

    pub closed spec fn hotkey_pos_spec(&self) -> Option<usize> {
        self.hotkey_pos
    }

    pub closed spec fn wf(&self) -> bool {
        self.count == self.text@.len()
    }

    /// What a caption set with a method holds of the raw text.
    pub open spec fn from_text(&self, raw: Seq<char>, method: ExtractHotKeyMethod) -> bool {
        match method {
            ExtractHotKeyMethod::NoHotKey => {
                &&& self.text_spec() == raw
                &&& self.hotkey_spec() is None
                &&& self.hotkey_pos_spec() is None
            },
            ExtractHotKeyMethod::AltPlusKey => {
                &&& self.text_spec() == stripped_of(raw)
                &&& self.hotkey_spec() == hotkey_of(raw)
                &&& match self.hotkey_pos_spec() {
                    Option::Some(p) => hotkey_pos_of(raw) == Option::Some(p as int),
                    Option::None => hotkey_pos_of(raw) is None,
                }
            },
        }
    }

    pub fn new(text: &str, method: ExtractHotKeyMethod) -> (r: Caption)
        ensures
            r.wf(),
            r.from_text(text@, method),
    {
        let mut c = Caption { text: String::new(), count: 0, hotkey: None, hotkey_pos: None };
        c.set_text(text, method);
        c
    }

    /// Reads a new text, extracting the hot key as the method says.
    pub fn set_text(&mut self, text: &str, method: ExtractHotKeyMethod)
        ensures
            final(self).wf(),
            final(self).from_text(text@, method),
    {
        let chars = chars_of(text);
        let n: usize = chars.len();
        match method {
            ExtractHotKeyMethod::NoHotKey => {
                self.text = string_from_chars(&chars);
                self.count = n;
                self.hotkey = None;
                self.hotkey_pos = None;
            },
            ExtractHotKeyMethod::AltPlusKey => {
                // find the hot-key mark
                let mut k: usize = n;
                let mut i: usize = 0;
                while i < n
                    invariant
                        i <= n,
                        n == chars@.len(),
                        chars@ == text@,
                        k == n || (k < i && k + 1 < n && text@[k as int] == '&' && is_key_char(
                            text@[k as int + 1],
                        )),
                        forall|j: int|
                            0 <= j < i && j < k && j + 1 < n ==> !(#[trigger] text@[j] == '&'
                                && is_key_char(text@[j + 1])),
                    decreases n - i,
                {
                    if k == n && i + 1 < n && chars[i] == '&' && is_key_char_exec(chars[i + 1]) {
                        k = i;
                    }
                    i = i + 1;
                }
                proof {
                    if k < n {
                        lemma_hotkey_mark_is(text@, 0, k as int);
                    } else {
                        lemma_hotkey_mark_is(text@, 0, n as int);
                    }
                }
                if k == n {
                    self.text = string_from_chars(&chars);
                    self.count = n;
                    self.hotkey = None;
                    self.hotkey_pos = None;
                } else {
                    let mut kept: Vec<char> = Vec::new();
                    let mut j: usize = 0;
                    while j < n
                        invariant
                            j <= n,
                            n == chars@.len(),
                            chars@ == text@,
                            k < n,
                            kept@ == if j <= k {
                                text@.take(j as int)
                            } else {
                                text@.take(k as int) + text@.subrange(k as int + 1, j as int)
                            },
                        decreases n - j,
                    {
                        if j != k {
                            kept.push(chars[j]);
                        }
                        j = j + 1;
                        proof {
                            if j <= k {
                                assert(kept@ =~= text@.take(j as int));
                            } else {
                                assert(kept@ =~= text@.take(k as int) + text@.subrange(
                                    k as int + 1,
                                    j as int,
                                ));
                            }
                        }
                    }
                    proof {
                        assert(text@.subrange(k as int + 1, n as int) =~= text@.skip(k as int + 1));
                        assert(kept@ =~= stripped_of(text@));
                    }
                    let hk: char = chars[k + 1];
                    self.count = kept.len();
                    self.text = string_from_chars(&kept);
                    self.hotkey = Some(hk);
                    self.hotkey_pos = Some(k);
                }
            },
        }
    }

    /// The visible text.
    pub fn text(&self) -> (r: &str)
        ensures
            r@ == self.text_spec(),
    {
        self.text.as_str()
    }

    /// How many characters the visible text holds.
    pub fn chars_count(&self) -> (r: usize)
        requires
            self.wf(),
        ensures
            r == self.text_spec().len(),
    {
        self.count
    }

    pub fn has_hotkey(&self) -> (r: bool)
        ensures
            r == (self.hotkey_spec() is Some),
    {
        self.hotkey.is_some()
    }

    pub fn hotkey_pos(&self) -> (r: Option<usize>)
        ensures
            r == self.hotkey_pos_spec(),
    {
        self.hotkey_pos
    }
}

/// The layout bookkeeping every toolbar item carries: its width, and
/// whether the toolbar must lay its items out again.
pub struct ItemBase {
    pub width: u16,
    pub visible: bool,
    pub needs_recompute: bool,
}

impl ItemBase {
    pub fn new(visible: bool) -> (r: ItemBase)
        ensures
            r.width == 0,
            r.visible == visible,
            !r.needs_recompute,
    {
        ItemBase { width: 0, visible, needs_recompute: false }
    }

    pub fn set_width(&mut self, width: u16)
        ensures
            *final(self) == (ItemBase { width, ..*old(self) }),
    {
        self.width = width;
    }

    pub fn get_width(&self) -> (r: u16)
        ensures
            r == self.width,
    {
        self.width
    }

    pub fn request_recompute_layout(&mut self)
        ensures
            *final(self) == (ItemBase { needs_recompute: true, ..*old(self) }),
    {
        self.needs_recompute = true;
    }
}

/// A check box on a window toolbar: a caption with an optional hot
/// key, and a checked mark.
pub struct CheckBox {
    pub base: ItemBase,
    pub caption: Caption,
    pub checked: bool,
}

impl CheckBox {
    pub open spec fn is_checked_spec(&self) -> bool {
        self.checked
    }

    pub open spec fn wf(&self) -> bool {
        self.caption.wf()
    }

    /// A check box showing `text` (with alt-key extraction), two cells
    /// wider than its caption for the check mark.
    pub fn new(text: &str, checked: bool) -> (r: CheckBox)
        ensures
            r.wf(),
            r.caption.from_text(text@, ExtractHotKeyMethod::AltPlusKey),
            r.base.width as int == (stripped_of(text@).len() + 2) as u16 as int,
            r.base.needs_recompute,
            r.is_checked_spec() == checked,
    {
        let mut obj = CheckBox {
            base: ItemBase::new(true),
            caption: Caption::new("", ExtractHotKeyMethod::NoHotKey),
            checked,
        };
        obj.set_content(text);
        obj
    }

    /// Replaces the caption; the width follows the new text.
    pub fn set_content(&mut self, text: &str)
        ensures
            final(self).wf(),
            final(self).caption.from_text(text@, ExtractHotKeyMethod::AltPlusKey),
            final(self).base.width as int == (stripped_of(text@).len() + 2) as u16 as int,
            final(self).base.needs_recompute,
            final(self).is_checked_spec() == old(self).is_checked_spec(),
    {
        self.caption.set_text(text, ExtractHotKeyMethod::AltPlusKey);
        let count: usize = self.caption.chars_count();
        let wide: u128 = count as u128 + 2;
        let w: u16 = #[verifier::truncate] (wide as u16);
        self.base.set_width(w);
        self.base.request_recompute_layout();
    }

    /// The caption text (the hot-key `&` already removed).
    pub fn get_content(&self) -> (r: &str)
        ensures
            r@ == self.caption.text_spec(),
    {
        self.caption.text()
    }

    pub fn set_checked(&mut self, checked: bool)
        ensures
            final(self).is_checked_spec() == checked,
            final(self).caption == old(self).caption,
            final(self).base.needs_recompute,
            final(self).base.width == old(self).base.width,
            final(self).wf() == old(self).wf(),
    {
        self.checked = checked;
        self.base.request_recompute_layout();
    }

    /// Flips the checked mark.
    pub fn reverse_check(&mut self)
        ensures
            final(self).is_checked_spec() == !old(self).is_checked_spec(),
            final(self).caption == old(self).caption,
            final(self).base.needs_recompute,
            final(self).base.width == old(self).base.width,
            final(self).wf() == old(self).wf(),
    {
        let c: bool = self.checked;
        self.set_checked(!c);
    }

    pub fn is_checked(&self) -> (r: bool)
        ensures
            r == self.is_checked_spec(),
    {
        self.checked
    }
}

} // verus!
