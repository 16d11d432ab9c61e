//! What the side panel shows of an object: a title, a description and a
//! list.
use vstd::prelude::*;
use crate::text::strs_view;

verus! {

/// Something the side panel can show.
pub trait Observable {
    /// The object can be shown: what it shows can be computed without
    /// overflow.
    spec fn showable(&self) -> bool;

    /// The title that is shown.
    spec fn title_view(&self) -> Seq<char>;

    /// The description that is shown.
    spec fn description_view(&self) -> Seq<char>;

    /// The list items that are shown.
    spec fn list_view(&self) -> Seq<Seq<char>>;

    /// The title.
    fn show_title(&self) -> (r: String)
        requires
            self.showable(),
        ensures
            r@ == self.title_view(),
    ;

    /// The description.
    fn show_description(&self) -> (r: String)
        requires
            self.showable(),
        ensures
            r@ == self.description_view(),
    ;

    /// The list items.
    fn show_list(&self) -> (r: Vec<String>)
        requires
            self.showable(),
        ensures
            strs_view(r@) == self.list_view(),
    ;
}

/// A copy of `v`, string by string.
pub fn clone_strings(v: &Vec<String>) -> (r: Vec<String>)
    ensures
        r@ == v@,
{
    let mut r: Vec<String> = Vec::new();
    let mut i: usize = 0;
    while i < v.len()
        invariant
            i <= v@.len(),
            r@ == v@.take(i as int),
        decreases v@.len() - i,
    {
        r.push(v[i].clone());
        proof {
            assert(v@.take(i + 1) =~= v@.take(i as int).push(v@[i as int]));
        }
        i = i + 1;
    }
    proof {
        assert(v@.take(v@.len() as int) =~= v@);
    }
    r
}

/// Shown when there is nothing to show.
pub struct Empty;

impl Observable for Empty {
    open spec fn showable(&self) -> bool {
        true
    }

    open spec fn title_view(&self) -> Seq<char> {
        "無資料"@
    }

    open spec fn description_view(&self) -> Seq<char> {
        Seq::empty()
    }

    open spec fn list_view(&self) -> Seq<Seq<char>> {
        Seq::empty()
    }

    fn show_title(&self) -> (r: String) {
        String::from_str("無資料")
    }

    fn show_description(&self) -> (r: String) {
        let r = String::new();
        proof {
            assert(r@ =~= Seq::<char>::empty());
        }
        r
    }

    fn show_list(&self) -> (r: Vec<String>) {
        let r: Vec<String> = Vec::new();
        proof {
            assert(strs_view(r@) =~= Seq::<Seq<char>>::empty());
        }
        r
    }
}

/// The world: its name, description and maps.
pub struct WorldInfo {
    pub name: String,
    pub description: String,
    pub maps: Vec<String>,
}

impl WorldInfo {
    pub fn new(name: String, description: String, maps: Vec<String>) -> (r: Self)
        ensures
            r.name@ == name@,
            r.description@ == description@,
            r.maps@ == maps@,
    {
        WorldInfo { name, description, maps }
    }
}

impl Observable for WorldInfo {
    open spec fn showable(&self) -> bool {
        true
    }

    open spec fn title_view(&self) -> Seq<char> {
        "【"@ + self.name@ + "】"@
    }

    open spec fn description_view(&self) -> Seq<char> {
        self.description@
    }

    /// The maps, or a line saying that there is none.
    open spec fn list_view(&self) -> Seq<Seq<char>> {
        if self.maps@.len() == 0 {
            seq!["無地圖"@]
        } else {
            strs_view(self.maps@)
        }
    }

    fn show_title(&self) -> (r: String) {
        let mut r = String::from_str("【");
        r.append(self.name.as_str());
        r.append("】");
        r
    }

    fn show_description(&self) -> (r: String) {
        self.description.clone()
    }

    fn show_list(&self) -> (r: Vec<String>) {
        if self.maps.len() == 0 {
            let r = vec![String::from_str("無地圖")];
            proof {
                assert(strs_view(r@) =~= seq!["無地圖"@]);
            }
            r
        } else {
            clone_strings(&self.maps)
        }
    }
}

/// Any title, description and list.
pub struct CustomObservable {
    pub title: String,
    pub description: String,
    pub items: Vec<String>,
}

impl CustomObservable {
    pub fn new(title: String, description: String, items: Vec<String>) -> (r: Self)
        ensures
            r.title@ == title@,
            r.description@ == description@,
            r.items@ == items@,
    {
        CustomObservable { title, description, items }
    }
}

impl Observable for CustomObservable {
    open spec fn showable(&self) -> bool {
        true
    }

    open spec fn title_view(&self) -> Seq<char> {
        self.title@
    }

    open spec fn description_view(&self) -> Seq<char> {
        self.description@
    }

    open spec fn list_view(&self) -> Seq<Seq<char>> {
        strs_view(self.items@)
    }

    fn show_title(&self) -> (r: String) {
        self.title.clone()
    }

    fn show_description(&self) -> (r: String) {
        self.description.clone()
    }

    fn show_list(&self) -> (r: Vec<String>) {
        clone_strings(&self.items)
    }
}

/// The list items as the panel shows them, each behind a bullet.
pub open spec fn bulleted(list: Seq<Seq<char>>) -> Seq<Seq<char>> {
    list.map_values(|item: Seq<char>| "• "@ + item)
}

/// The lines that the panel shows of a title, a description and a list:
/// the title; then, if the description is not empty, a blank line and the
/// description; then, if the list is not empty, a blank line and the
/// bulleted items.
pub open spec fn panel_lines(title: Seq<char>, description: Seq<char>, list: Seq<Seq<char>>) -> Seq<
    Seq<char>,
> {
    seq![title] + (if description.len() > 0 {
        seq![Seq::<char>::empty(), description]
    } else {
        Seq::empty()
    }) + (if list.len() > 0 {
        seq![Seq::<char>::empty()] + bulleted(list)
    } else {
        Seq::empty()
    })
}

/// The lines that the panel shows of `title`, `description` and `list`.
pub fn panel_text_lines(title: String, description: String, list: &Vec<String>) -> (r: Vec<String>)
    ensures
        strs_view(r@) == panel_lines(title@, description@, strs_view(list@)),
{
    let mut lines: Vec<String> = Vec::new();
    let ghost d = description@;
    let ghost l = strs_view(list@);
    lines.push(title);
    let ghost head = strs_view(lines@);
    if description.as_str().unicode_len() > 0 {
        lines.push(String::new());
        lines.push(description);
    }
    let ghost mid = strs_view(lines@);
    proof {
        assert(mid =~= head + (if d.len() > 0 {
            seq![Seq::<char>::empty(), d]
        } else {
            Seq::<Seq<char>>::empty()
        }));
    }
    if list.len() > 0 {
        lines.push(String::new());
        let mut i: usize = 0;
        while i < list.len()
            invariant
                i <= list@.len(),
                l == strs_view(list@),
                l.len() > 0,
                strs_view(lines@) == mid + seq![Seq::<char>::empty()] + bulleted(l.take(i as int)),
            decreases list@.len() - i,
        {
            let mut item = String::from_str("• ");
            item.append(list[i].as_str());
            let ghost before = lines@;
            let ghost iv = item@;
            lines.push(item);
            proof {
                assert(strs_view(lines@) =~= strs_view(before).push(iv));
                assert(iv == "• "@ + l[i as int]);
                assert(bulleted(l.take(i + 1)) =~= bulleted(l.take(i as int)).push("• "@ + l[i as int]));
                assert(strs_view(lines@) =~= mid + seq![Seq::<char>::empty()] + bulleted(
                    l.take(i + 1),
                ));
            }
            i = i + 1;
        }
        proof {
            assert(l.take(l.len() as int) =~= l);
            assert(head =~= seq![title@]);
        }
    } else {
        proof {
            assert(strs_view(lines@) =~= mid + Seq::<Seq<char>>::empty());
            assert(head =~= seq![title@]);
        }
    }
    lines
}

/// The lines that the panel shows of `obs`.
pub fn observable_text_lines<O: Observable + ?Sized>(obs: &O) -> (r: Vec<String>)
    requires
        obs.showable(),
    ensures
        strs_view(r@) == panel_lines(obs.title_view(), obs.description_view(), obs.list_view()),
{
    let title = obs.show_title();
    let description = obs.show_description();
    let list = obs.show_list();
    panel_text_lines(title, description, &list)
}

} // verus!
