//! A screen of drawable components. Components render themselves to text;
//! putting the text on an actual display is the caller's business.

use crate::arith::{decimal_digits, u64_to_string};
use vstd::prelude::*;
use vstd::string::StringExecFns;

verus! {

/// Something that can render itself.
pub trait Draw {
    /// The rendering this component produces.
    spec fn spec_draw(&self) -> Seq<char>;

    /// Renders the component.
    fn draw(&self) -> (r: String)
        ensures
            r@ == self.spec_draw(),
    ;
}

/// A screen holding heterogeneous drawable components.
pub struct Screen {
    pub components: Vec<Box<dyn Draw>>,
}

impl Screen {
    /// Draws every component, in order.
    pub fn run(&self) -> (r: Vec<String>)
        ensures
            r@.len() == self.components@.len(),
            forall|i: int|
                0 <= i < r@.len() ==> r@[i]@ == self.components@[i].spec_draw(),
    {
        let mut r: Vec<String> = Vec::new();
        let n = self.components.len();
        let mut i: usize = 0;
        while i < n
            invariant
                n == self.components@.len(),
                i <= n,
                r@.len() == i,
                forall|k: int|
                    0 <= k < i ==> r@[k]@ == self.components@[k].spec_draw(),
            decreases n - i,
        {
            let rendered = self.components[i].draw();
            r.push(rendered);
            i += 1;
        }
        r
    }
}

/// A button: a size and a label.
pub struct Button {
    pub width: u32,
    pub height: u32,
    pub label: String,
}

impl Draw for Button {
    open spec fn spec_draw(&self) -> Seq<char> {
        "这是一个大小："@ + decimal_digits(self.width as nat) + " 像素 x "@ + decimal_digits(
            self.height as nat,
        ) + " 像素，有着 “"@ + self.label@ + "” 标签的按钮；"@
    }

    fn draw(&self) -> (r: String) {
        let mut s = String::from_str("这是一个大小：");
        let w = u64_to_string(self.width as u64);
        s.append(w.as_str());
        s.append(" 像素 x ");
        let h = u64_to_string(self.height as u64);
        s.append(h.as_str());
        s.append(" 像素，有着 “");
        s.append(self.label.as_str());
        s.append("” 标签的按钮；");
        s
    }
}

/// The given texts joined with `", "` between them.
pub open spec fn spec_joined(os: Seq<Seq<char>>) -> Seq<char>
    decreases os.len(),
{
    if os.len() == 0 {
        Seq::empty()
    } else if os.len() == 1 {
        os[0]
    } else {
        spec_joined(os.drop_last()) + ", "@ + os.last()
    }
}

/// A box of selectable options.
pub struct SelectBox {
    pub width: u32,
    pub height: u32,
    pub options: Vec<String>,
}

impl Draw for SelectBox {
    open spec fn spec_draw(&self) -> Seq<char> {
        "这是一个大小为："@ + decimal_digits(self.width as nat) + " 像素 x "@ + decimal_digits(
            self.height as nat,
        ) + " 像素，有着选项：["@ + spec_joined(self.options@.map_values(|o: String| o@))
            + "] 的复选框；"@
    }

    fn draw(&self) -> (r: String) {
        let ghost vs = self.options@.map_values(|o: String| o@);
        let mut s = String::from_str("这是一个大小为：");
        let w = u64_to_string(self.width as u64);
        s.append(w.as_str());
        s.append(" 像素 x ");
        let h = u64_to_string(self.height as u64);
        s.append(h.as_str());
        s.append(" 像素，有着选项：[");
        let ghost head = s@;
        let n = self.options.len();
        let mut joined = String::new();
        let mut i: usize = 0;
        proof {
            assert(vs.take(0) =~= Seq::<Seq<char>>::empty());
        }
        while i < n
            invariant
                n == self.options@.len(),
                vs == self.options@.map_values(|o: String| o@),
                i <= n,
                joined@ == spec_joined(vs.take(i as int)),
            decreases n - i,
        {
            proof {
                assert(vs.take(i as int + 1).drop_last() =~= vs.take(i as int));
                assert(vs.take(i as int + 1).last() == vs[i as int]);
                assert(vs[i as int] == self.options@[i as int]@);
            }
            if i > 0 {
                joined.append(", ");
            }
            joined.append(self.options[i].as_str());
            i += 1;
        }
        proof {
            assert(vs.take(n as int) =~= vs);
        }
        s.append(joined.as_str());
        s.append("] 的复选框；");
        s
    }
}

} // verus!
