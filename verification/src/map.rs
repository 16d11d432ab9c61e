//! Maps: a grid of points, each walkable or not, with a description and
//! the objects that lie there.
use vstd::prelude::*;
use crate::item::Item;
use crate::observable::Observable;
use crate::random::{random_below, random_ratio};
use crate::text::{decimal, push_decimal, str_eq, strs_view};

verus! {

#[verifier::external_type_specification]
#[verifier::external_body]
pub struct ExIoError(std::io::Error);

/// The kind of terrain a map has.
#[derive(Clone, Copy, Debug, PartialEq, Eq, Structural, Hash)]
pub enum MapType {
    Normal,
    Forest,
    Cave,
    Desert,
    Mountain,
}

/// The percentage of points of a map of type `t` that are walkable.
pub open spec fn walkable_percent_of(t: MapType) -> u32 {
    match t {
        MapType::Normal => 70,
        MapType::Forest => 60,
        MapType::Cave => 50,
        MapType::Desert => 75,
        MapType::Mountain => 40,
    }
}

impl MapType {
    /// The percentage of points of a map of this type that are walkable.
    pub fn walkable_percent(&self) -> (r: u32)
        ensures
            r == walkable_percent_of(*self),
    {
        match self {
            MapType::Normal => 70,
            MapType::Forest => 60,
            MapType::Cave => 50,
            MapType::Desert => 75,
            MapType::Mountain => 40,
        }
    }
}

/// The descriptions that points of a map of type `t` are given.
pub open spec fn default_descriptions(t: MapType) -> Seq<Seq<char>> {
    match t {
        MapType::Normal => seq![
            "寬闊的綠色草地，微風吹過"@,
            "鵝卵石舖成的古老石路"@,
            "鬱鬱蒼蒼的樹林"@,
            "遠方的翠綠山丘"@,
            "清澈的河流流經此地"@,
            "灰色的嶙峋岩石"@,
            "密集的灌木叢"@,
            "盛開的彩色花田"@,
            "黃色沙漠風景"@,
            "白雪皚皚的地面"@,
            "懸崖的邊緣，可以俯瞰遠景"@,
            "神秘的洞穴入口"@,
            "古老的廢墟遺跡"@,
            "熱鬧的小村落"@,
            "宏偉的石砌城堡"@,
            "連接兩岸的古老橋樑"@,
            "清涼的泉水湧出"@,
            "寂靜的墓地"@,
            "聳立的懸崖"@,
            "深綠色的古老森林"@,
        ],
        MapType::Forest => seq![
            "密集的樹林，陽光透過樹葉灑下"@,
            "高大的橡樹，樹幹粗壯"@,
            "竹林沙沙作響"@,
            "布滿樹根和苔蘚的地面"@,
            "灌木叢掩蓋的狹窄小徑"@,
            "林間寬敞的空地"@,
            "千年古木，蒼勁挺立"@,
            "陰暗潮濕的林地"@,
            "清澈溪流邊的石頭"@,
            "蕨類植物生長茂盛"@,
            "松樹林香氣撲鼻"@,
            "橡樹叢聚集成林"@,
            "野生花卉遍佈"@,
            "林間寬闊露地"@,
            "深不見底的老林"@,
            "倒下的樹樁"@,
            "稀有的臺灣檜木"@,
            "山毛櫸樹下"@,
            "森林中的大石頭"@,
            "腐爛的枯木"@,
        ],
        MapType::Cave => seq![
            "灰色的石灰岩洞壁"@,
            "垂直的鐘乳石發光"@,
            "暗黑的地下河流"@,
            "令人窒息的深淵"@,
            "礦脈閃閃發光"@,
            "古老的化石印痕"@,
            "高聳的石柱"@,
            "黑暗陰暗的角落"@,
            "地下水池平靜如鏡"@,
            "岩石峽谷狹窄蜿蜒"@,
            "洞穴入口外透進微光"@,
            "如同地下宮殿般的空間"@,
            "岩壁上的裂縫"@,
            "陡峭的滑坡"@,
            "蝙蝠棲息地傳來尖叫聲"@,
            "熔岩冷卻成的黑石"@,
            "地震遺留的痕跡"@,
            "隱藏的秘密房間"@,
            "寶藏可能埋藏的地點"@,
            "複雜的地下迷宮"@,
        ],
        MapType::Desert => seq![
            "細細的沙粒覆蓋"@,
            "金黃色的沙丘堆積"@,
            "岩石露頭刺穿沙面"@,
            "乾枯的灌木稀疏分佈"@,
            "遠方的海市蜃樓"@,
            "黃色沙塵暴逼近"@,
            "古老的廢墟遺跡"@,
            "綠洲中的棕櫚樹"@,
            "駱駝骨骼白骨化"@,
            "黑色的火山岩"@,
            "沙漠刺骨寒風"@,
            "地表的流沙危險"@,
            "沙漠中的沙棗樹"@,
            "鹽湖結晶而成"@,
            "陶土色的沙堆"@,
            "被沙埋沒的建築"@,
            "開放的沙漠花卉"@,
            "岩石構成的平台"@,
            "深色的沙層"@,
            "被風化的古老石頭"@,
        ],
        MapType::Mountain => seq![
            "白雪覆蓋的山峰"@,
            "陡峭的岩壁險峻"@,
            "冰川流動的痕跡"@,
            "高山草甸風景秀麗"@,
            "亂石堆積的坡地"@,
            "深邃的峽谷"@,
            "壯觀的瀑布"@,
            "懸崖邊沒有防欄"@,
            "山洞入口黑暗深邃"@,
            "樹林和高山交界處"@,
            "山脈的脊線清晰"@,
            "碎石坡滑落危險"@,
            "高山湖水清澈冰冷"@,
            "雲霧繚繞視線不清"@,
            "松樹林密集生長"@,
            "石頭砌成的平台"@,
            "冰凍的溪流結冰"@,
            "山頂視野遼闊"@,
            "吊橋晃動不穩"@,
            "彎曲的山路"@,
        ],
    }
}

fn descriptions_for(t: MapType) -> (r: Vec<String>)
    ensures
        strs_view(r@) == default_descriptions(t),
{
    let r = match t {
            MapType::Normal => vec![
                String::from_str("寬闊的綠色草地，微風吹過"),
                String::from_str("鵝卵石舖成的古老石路"),
                String::from_str("鬱鬱蒼蒼的樹林"),
                String::from_str("遠方的翠綠山丘"),
                String::from_str("清澈的河流流經此地"),
                String::from_str("灰色的嶙峋岩石"),
                String::from_str("密集的灌木叢"),
                String::from_str("盛開的彩色花田"),
                String::from_str("黃色沙漠風景"),
                String::from_str("白雪皚皚的地面"),
                String::from_str("懸崖的邊緣，可以俯瞰遠景"),
                String::from_str("神秘的洞穴入口"),
                String::from_str("古老的廢墟遺跡"),
                String::from_str("熱鬧的小村落"),
                String::from_str("宏偉的石砌城堡"),
                String::from_str("連接兩岸的古老橋樑"),
                String::from_str("清涼的泉水湧出"),
                String::from_str("寂靜的墓地"),
                String::from_str("聳立的懸崖"),
                String::from_str("深綠色的古老森林"),
            ],
            MapType::Forest => vec![
                String::from_str("密集的樹林，陽光透過樹葉灑下"),
                String::from_str("高大的橡樹，樹幹粗壯"),
                String::from_str("竹林沙沙作響"),
                String::from_str("布滿樹根和苔蘚的地面"),
                String::from_str("灌木叢掩蓋的狹窄小徑"),
                String::from_str("林間寬敞的空地"),
                String::from_str("千年古木，蒼勁挺立"),
                String::from_str("陰暗潮濕的林地"),
                String::from_str("清澈溪流邊的石頭"),
                String::from_str("蕨類植物生長茂盛"),
                String::from_str("松樹林香氣撲鼻"),
                String::from_str("橡樹叢聚集成林"),
                String::from_str("野生花卉遍佈"),
                String::from_str("林間寬闊露地"),
                String::from_str("深不見底的老林"),
                String::from_str("倒下的樹樁"),
                String::from_str("稀有的臺灣檜木"),
                String::from_str("山毛櫸樹下"),
                String::from_str("森林中的大石頭"),
                String::from_str("腐爛的枯木"),
            ],
            MapType::Cave => vec![
                String::from_str("灰色的石灰岩洞壁"),
                String::from_str("垂直的鐘乳石發光"),
                String::from_str("暗黑的地下河流"),
                String::from_str("令人窒息的深淵"),
                String::from_str("礦脈閃閃發光"),
                String::from_str("古老的化石印痕"),
                String::from_str("高聳的石柱"),
                String::from_str("黑暗陰暗的角落"),
                String::from_str("地下水池平靜如鏡"),
                String::from_str("岩石峽谷狹窄蜿蜒"),
                String::from_str("洞穴入口外透進微光"),
                String::from_str("如同地下宮殿般的空間"),
                String::from_str("岩壁上的裂縫"),
                String::from_str("陡峭的滑坡"),
                String::from_str("蝙蝠棲息地傳來尖叫聲"),
                String::from_str("熔岩冷卻成的黑石"),
                String::from_str("地震遺留的痕跡"),
                String::from_str("隱藏的秘密房間"),
                String::from_str("寶藏可能埋藏的地點"),
                String::from_str("複雜的地下迷宮"),
            ],
            MapType::Desert => vec![
                String::from_str("細細的沙粒覆蓋"),
                String::from_str("金黃色的沙丘堆積"),
                String::from_str("岩石露頭刺穿沙面"),
                String::from_str("乾枯的灌木稀疏分佈"),
                String::from_str("遠方的海市蜃樓"),
                String::from_str("黃色沙塵暴逼近"),
                String::from_str("古老的廢墟遺跡"),
                String::from_str("綠洲中的棕櫚樹"),
                String::from_str("駱駝骨骼白骨化"),
                String::from_str("黑色的火山岩"),
                String::from_str("沙漠刺骨寒風"),
                String::from_str("地表的流沙危險"),
                String::from_str("沙漠中的沙棗樹"),
                String::from_str("鹽湖結晶而成"),
                String::from_str("陶土色的沙堆"),
                String::from_str("被沙埋沒的建築"),
                String::from_str("開放的沙漠花卉"),
                String::from_str("岩石構成的平台"),
                String::from_str("深色的沙層"),
                String::from_str("被風化的古老石頭"),
            ],
            MapType::Mountain => vec![
                String::from_str("白雪覆蓋的山峰"),
                String::from_str("陡峭的岩壁險峻"),
                String::from_str("冰川流動的痕跡"),
                String::from_str("高山草甸風景秀麗"),
                String::from_str("亂石堆積的坡地"),
                String::from_str("深邃的峽谷"),
                String::from_str("壯觀的瀑布"),
                String::from_str("懸崖邊沒有防欄"),
                String::from_str("山洞入口黑暗深邃"),
                String::from_str("樹林和高山交界處"),
                String::from_str("山脈的脊線清晰"),
                String::from_str("碎石坡滑落危險"),
                String::from_str("高山湖水清澈冰冷"),
                String::from_str("雲霧繚繞視線不清"),
                String::from_str("松樹林密集生長"),
                String::from_str("石頭砌成的平台"),
                String::from_str("冰凍的溪流結冰"),
                String::from_str("山頂視野遼闊"),
                String::from_str("吊橋晃動不穩"),
                String::from_str("彎曲的山路"),
            ],
        };
    proof {
        assert(strs_view(r@) =~= default_descriptions(t));
    }
    r
}

/// The position of a map type in the description table.
pub open spec fn type_index(t: MapType) -> int {
    match t {
        MapType::Normal => 0,
        MapType::Forest => 1,
        MapType::Cave => 2,
        MapType::Desert => 3,
        MapType::Mountain => 4,
    }
}

fn type_position(t: &MapType) -> (r: usize)
    ensures
        r == type_index(*t),
{
    match t {
        MapType::Normal => 0,
        MapType::Forest => 1,
        MapType::Cave => 2,
        MapType::Desert => 3,
        MapType::Mountain => 4,
    }
}

/// The descriptions of points, by map type.
pub struct DescriptionDb {
    descriptions: Vec<Vec<String>>,
}

impl DescriptionDb {
    /// The descriptions for points of a map of type `t`.
    pub closed spec fn descriptions_of(&self, t: MapType) -> Seq<Seq<char>> {
        strs_view(self.descriptions@[type_index(t)]@)
    }

    pub closed spec fn wf(&self) -> bool {
        self.descriptions@.len() == 5
    }

    /// The default descriptions of each map type.
    pub fn new() -> (r: Self)
        ensures
            r.wf(),
            forall|t: MapType| #[trigger] r.descriptions_of(t) == default_descriptions(t),
    {
        let descriptions = vec![
            descriptions_for(MapType::Normal),
            descriptions_for(MapType::Forest),
            descriptions_for(MapType::Cave),
            descriptions_for(MapType::Desert),
            descriptions_for(MapType::Mountain),
        ];
        let r = DescriptionDb { descriptions };
        proof {
            assert forall|t: MapType| #[trigger] r.descriptions_of(t) == default_descriptions(t) by {
                match t {
                    MapType::Normal => {},
                    MapType::Forest => {},
                    MapType::Cave => {},
                    MapType::Desert => {},
                    MapType::Mountain => {},
                }
            }
        }
        r
    }

    /// One of the descriptions for `map_type`, picked at random, or nothing
    /// when there is none.
    pub fn get_description(&self, map_type: &MapType) -> (r: Option<String>)
        requires
            self.wf(),
        ensures
            match r {
                Some(d) => self.descriptions_of(*map_type).contains(d@),
                None => self.descriptions_of(*map_type).len() == 0,
            },
    {
        let descs = &self.descriptions[type_position(map_type)];
        if descs.len() > 0 {
            let idx = random_below(descs.len());
            let d = descs[idx].clone();
            proof {
                assert(strs_view(descs@)[idx as int] == d@);
            }
            Some(d)
        } else {
            None
        }
    }

    /// Loading descriptions for a map from a file is not done yet: nothing
    /// changes and the answer is success.
    pub fn load_from_file(&mut self, _map_name: &str, _map_type: &MapType) -> (r: Result<(), std::io::Error>)
        ensures
            r is Ok,
            *final(self) == *old(self),
    {
        Ok(())
    }
}

/// A place on a map.
#[derive(Clone, Debug)]
pub struct Point {
    pub x: usize,
    pub y: usize,
    pub walkable: bool,
    pub description: String,
    /// The name given to the place, empty when it has none.
    pub name: String,
    /// What lies there, people included.
    pub objects: Vec<String>,
}

/// `objects` with the first occurrence of `obj` taken out, if any.
pub open spec fn without_first(objects: Seq<Seq<char>>, obj: Seq<char>) -> Seq<Seq<char>> {
    match objects.index_of_first(obj) {
        Some(k) => objects.remove(k),
        None => objects,
    }
}

impl Point {
    /// A point with nothing on it.
    pub fn new(x: usize, y: usize, walkable: bool, description: String) -> (r: Self)
        ensures
            r.x == x,
            r.y == y,
            r.walkable == walkable,
            r.description == description,
            r.name@.len() == 0,
            r.objects@.len() == 0,
    {
        Point { x, y, walkable, description, name: String::new(), objects: Vec::new() }
    }

    /// A point of a map of type `map_type`, walkable at the type's rate and
    /// described by one of the type's descriptions, picked at random.
    pub fn random_for_type(x: usize, y: usize, map_type: &MapType) -> (r: Self)
        ensures
            r.x == x,
            r.y == y,
            default_descriptions(*map_type).contains(r.description@),
            r.objects@.len() == 0,
    {
        let db = DescriptionDb::new();
        let walkable = random_ratio(map_type.walkable_percent(), 100);
        let description = match db.get_description(map_type) {
            Some(d) => d,
            None => String::from_str("未知地點"),
        };
        Point { x, y, walkable, description, name: String::new(), objects: Vec::new() }
    }

    /// A point of an ordinary map, made at random.
    pub fn random(x: usize, y: usize) -> (r: Self)
        ensures
            r.x == x,
            r.y == y,
            default_descriptions(MapType::Normal).contains(r.description@),
            r.objects@.len() == 0,
    {
        Self::random_for_type(x, y, &MapType::Normal)
    }

    /// Puts `obj` on the point, after what is there.
    pub fn add_object(&mut self, obj: String)
        ensures
            final(self).x == old(self).x,
            final(self).y == old(self).y,
            final(self).walkable == old(self).walkable,
            final(self).description == old(self).description,
            final(self).name == old(self).name,
            strs_view(final(self).objects@) == strs_view(old(self).objects@).push(obj@),
    {
        let ghost before = self.objects@;
        let ghost o = obj@;
        self.objects.push(obj);
        proof {
            assert(strs_view(self.objects@) =~= strs_view(before).push(o));
        }
    }

    /// Takes the first occurrence of `obj` off the point; `false` when
    /// there is none.
    pub fn remove_object(&mut self, obj: &str) -> (r: bool)
        ensures
            r == strs_view(old(self).objects@).contains(obj@),
            final(self).x == old(self).x,
            final(self).y == old(self).y,
            final(self).walkable == old(self).walkable,
            final(self).description == old(self).description,
            final(self).name == old(self).name,
            strs_view(final(self).objects@) == without_first(strs_view(old(self).objects@), obj@),
            !r ==> *final(self) == *old(self),
    {
        let ghost v = strs_view(self.objects@);
        let mut i: usize = 0;
        while i < self.objects.len()
            invariant
                i <= self.objects@.len(),
                v == strs_view(self.objects@),
                *self == *old(self),
                forall|j: int| 0 <= j < i ==> v[j] != obj@,
            decreases self.objects@.len() - i,
        {
            if str_eq(self.objects[i].as_str(), obj) {
                proof {
                    assert(v.contains(obj@)) by {
                        assert(v[i as int] == obj@);
                    }
                    v.index_of_first_ensures(obj@);
                    let k = v.index_of_first(obj@).unwrap();
                    assert(k == i as int) by {
                        assert(v[k] == obj@);
                        if k > i {
                            assert(v[i as int] != obj@);
                        }
                    }
                }
                let ghost before = self.objects@;
                self.objects.remove(i);
                proof {
                    assert(strs_view(self.objects@) =~= v.remove(i as int));
                }
                return true;
            }
            i = i + 1;
        }
        proof {
            assert(!v.contains(obj@)) by {
                if v.contains(obj@) {
                    let k = choose|k: int| 0 <= k < v.len() && v[k] == obj@;
                    assert(v[k] != obj@);
                }
            }
            v.index_of_first_ensures(obj@);
        }
        false
    }
}


/// A grid of points, row by row.
#[derive(Clone)]
pub struct GameMap {
    pub name: String,
    pub width: usize,
    pub height: usize,
    pub map_type: MapType,
    pub points: Vec<Vec<Point>>,
}

/// The cell `a` comes before the cell `b` in row-major order.
pub open spec fn cell_before(a: (usize, usize), b: (usize, usize)) -> bool {
    a.1 < b.1 || (a.1 == b.1 && a.0 < b.0)
}

/// The number of walkable points in `row`.
pub open spec fn walkable_in_row(row: Seq<Point>) -> nat
    decreases row.len(),
{
    if row.len() == 0 {
        0
    } else {
        walkable_in_row(row.drop_last()) + if row.last().walkable {
            1nat
        } else {
            0nat
        }
    }
}

/// The number of walkable points in `rows`.
pub open spec fn walkable_in_rows(rows: Seq<Vec<Point>>) -> nat
    decreases rows.len(),
{
    if rows.len() == 0 {
        0
    } else {
        walkable_in_rows(rows.drop_last()) + walkable_in_row(rows.last()@)
    }
}

/// The number of points in `rows`.
pub open spec fn points_in_rows(rows: Seq<Vec<Point>>) -> nat
    decreases rows.len(),
{
    if rows.len() == 0 {
        0
    } else {
        points_in_rows(rows.drop_last()) + rows.last()@.len()
    }
}

/// The points of rows `ys..=ye`, columns `xs..=xe`, row by row.
pub open spec fn rect_points(rows: Seq<Vec<Point>>, xs: int, xe: int, ys: int, ye: int) -> Seq<Point>
    decreases ye - ys + 1,
{
    if ye < ys {
        Seq::empty()
    } else {
        rect_points(rows, xs, xe, ys, ye - 1) + if xs <= xe {
            rows[ye]@.subrange(xs, xe + 1)
        } else {
            Seq::empty()
        }
    }
}

proof fn lemma_walkable_le_len(row: Seq<Point>)
    ensures
        walkable_in_row(row) <= row.len(),
    decreases row.len(),
{
    if row.len() > 0 {
        lemma_walkable_le_len(row.drop_last());
    }
}

proof fn lemma_rows_walkable_le(rows: Seq<Vec<Point>>)
    ensures
        walkable_in_rows(rows) <= points_in_rows(rows),
    decreases rows.len(),
{
    if rows.len() > 0 {
        lemma_rows_walkable_le(rows.drop_last());
        lemma_walkable_le_len(rows.last()@);
    }
}

impl GameMap {
    /// The point in column `x` of row `y`.
    pub open spec fn point_at(&self, x: int, y: int) -> Point {
        self.points@[y]@[x]
    }

    /// The map has `height` rows of `width` points.
    pub open spec fn wf(&self) -> bool {
        &&& self.points@.len() == self.height
        &&& forall|y: int| 0 <= y < self.height ==> #[trigger] self.points@[y]@.len() == self.width
    }

    /// An ordinary map, made at random.
    pub fn new(name: String, width: usize, height: usize) -> (r: Self)
        ensures
            r.wf(),
            r.name == name,
            r.width == width,
            r.height == height,
            r.map_type == MapType::Normal,
            forall|x: int, y: int|
                0 <= x < width && 0 <= y < height ==> #[trigger] r.point_at(x, y).x == x && r.point_at(
                    x,
                    y,
                ).y == y && r.point_at(x, y).objects@.len() == 0 && default_descriptions(
                    MapType::Normal,
                ).contains(r.point_at(x, y).description@),
    {
        Self::new_with_type(name, width, height, MapType::Normal)
    }

    /// A map of type `map_type`, made at random: each point walkable at
    /// the type's rate and described by one of the type's descriptions.
    pub fn new_with_type(name: String, width: usize, height: usize, map_type: MapType) -> (r: Self)
        ensures
            r.wf(),
            r.name == name,
            r.width == width,
            r.height == height,
            r.map_type == map_type,
            forall|x: int, y: int|
                0 <= x < width && 0 <= y < height ==> #[trigger] r.point_at(x, y).x == x && r.point_at(
                    x,
                    y,
                ).y == y && r.point_at(x, y).objects@.len() == 0 && default_descriptions(
                    map_type,
                ).contains(r.point_at(x, y).description@),
    {
        let mut points: Vec<Vec<Point>> = Vec::new();
        let mut y: usize = 0;
        while y < height
            invariant
                y <= height,
                points@.len() == y,
                forall|j: int| 0 <= j < y ==> #[trigger] points@[j]@.len() == width,
                forall|i: int, j: int|
                    0 <= i < width && 0 <= j < y ==> #[trigger] points@[j]@[i].x == i
                        && points@[j]@[i].y == j && points@[j]@[i].objects@.len() == 0
                        && default_descriptions(map_type).contains(points@[j]@[i].description@),
            decreases height - y,
        {
            let mut row: Vec<Point> = Vec::new();
            let mut x: usize = 0;
            while x < width
                invariant
                    x <= width,
                    row@.len() == x,
                    forall|i: int|
                        0 <= i < x ==> #[trigger] row@[i].x == i && row@[i].y == y && row@[i].objects@.len()
                            == 0 && default_descriptions(map_type).contains(row@[i].description@),
                decreases width - x,
            {
                row.push(Point::random_for_type(x, y, &map_type));
                x = x + 1;
            }
            points.push(row);
            y = y + 1;
        }
        GameMap { name, width, height, map_type, points }
    }

    /// The walkable cells, as (x, y), in row-major order.
    pub fn get_walkable_points(&self) -> (r: Vec<(usize, usize)>)
        requires
            self.wf(),
        ensures
            forall|k: int|
                0 <= k < r@.len() ==> #[trigger] r@[k].0 < self.width && r@[k].1 < self.height
                    && self.point_at(r@[k].0 as int, r@[k].1 as int).walkable,
            forall|x: usize, y: usize|
                x < self.width && y < self.height && #[trigger] self.point_at(x as int, y as int).walkable
                    ==> r@.contains((x, y)),
            forall|i: int, j: int| 0 <= i < j < r@.len() ==> cell_before(#[trigger] r@[i], #[trigger] r@[j]),
    {
        let mut r: Vec<(usize, usize)> = Vec::new();
        let mut y: usize = 0;
        while y < self.height
            invariant
                self.wf(),
                y <= self.height,
                forall|k: int|
                    0 <= k < r@.len() ==> #[trigger] r@[k].0 < self.width && r@[k].1 < y
                        && self.point_at(r@[k].0 as int, r@[k].1 as int).walkable,
                forall|cx: usize, cy: usize|
                    cx < self.width && cy < y && #[trigger] self.point_at(cx as int, cy as int).walkable
                        ==> r@.contains((cx, cy)),
                forall|i: int, j: int|
                    0 <= i < j < r@.len() ==> cell_before(#[trigger] r@[i], #[trigger] r@[j]),
            decreases self.height - y,
        {
            let mut x: usize = 0;
            proof {
                assert forall|k: int| 0 <= k < r@.len() implies #[trigger] r@[k].0 < self.width
                    && cell_before(r@[k], (x, y)) && self.point_at(r@[k].0 as int, r@[k].1 as int).walkable by {}
                assert forall|cx: usize, cy: usize|
                    cx < self.width && cell_before((cx, cy), (x, y)) && #[trigger] self.point_at(
                        cx as int,
                        cy as int,
                    ).walkable implies r@.contains((cx, cy)) by {}
            }
            while x < self.width
                invariant
                    self.wf(),
                    y < self.height,
                    x <= self.width,
                    forall|k: int|
                        0 <= k < r@.len() ==> #[trigger] r@[k].0 < self.width && cell_before(r@[k], (x, y))
                            && self.point_at(r@[k].0 as int, r@[k].1 as int).walkable,
                    forall|cx: usize, cy: usize|
                        cx < self.width && cell_before((cx, cy), (x, y)) && #[trigger] self.point_at(
                            cx as int,
                            cy as int,
                        ).walkable ==> r@.contains((cx, cy)),
                    forall|i: int, j: int|
                        0 <= i < j < r@.len() ==> cell_before(#[trigger] r@[i], #[trigger] r@[j]),
                decreases self.width - x,
            {
                match self.get_point(x, y) {
                    Some(point) => {
                        if point.walkable {
                            let ghost old_r = r@;
                            r.push((x, y));
                            proof {
                                assert forall|i: int, j: int|
                                    0 <= i < j < r@.len() implies cell_before(#[trigger] r@[i], #[trigger] r@[j]) by {
                                    if j == old_r.len() {
                                        assert(r@[i] == old_r[i]);
                                        assert(old_r[i].0 < self.width);
                                        assert(cell_before(old_r[i], (x, y)));
                                    } else {
                                        assert(r@[i] == old_r[i] && r@[j] == old_r[j]);
                                    }
                                }
                                assert forall|k: int| 0 <= k < r@.len() implies #[trigger] r@[k].0 < self.width
                                    && cell_before(r@[k], ((x + 1) as usize, y)) && self.point_at(
                                    r@[k].0 as int,
                                    r@[k].1 as int,
                                ).walkable by {
                                    if k < old_r.len() {
                                        assert(r@[k] == old_r[k]);
                                    }
                                }
                                assert forall|cx: usize, cy: usize|
                                    cx < self.width && cell_before((cx, cy), ((x + 1) as usize, y))
                                        && #[trigger] self.point_at(cx as int, cy as int).walkable
                                        implies r@.contains((cx, cy)) by {
                                    if cell_before((cx, cy), (x, y)) {
                                        let k = choose|k: int| 0 <= k < old_r.len() && old_r[k] == (cx, cy);
                                        assert(r@[k] == (cx, cy));
                                    } else {
                                        assert(r@[old_r.len() as int] == (cx, cy));
                                    }
                                }
                            }
                        }
                    },
                    None => {},
                }
                x = x + 1;
            }
            proof {
                assert forall|k: int| 0 <= k < r@.len() implies #[trigger] r@[k].0 < self.width && r@[k].1
                    < y + 1 && self.point_at(r@[k].0 as int, r@[k].1 as int).walkable by {
                    assert(r@[k].0 < self.width);
                }
                assert forall|cx: usize, cy: usize|
                    cx < self.width && cy < y + 1 && #[trigger] self.point_at(cx as int, cy as int).walkable
                        implies r@.contains((cx, cy)) by {
                    assert(cell_before((cx, cy), (x, y)));
                }
            }
            y = y + 1;
        }
        r
    }

    /// The point at (`x`, `y`), if the cell is on the map.
    pub fn get_point(&self, x: usize, y: usize) -> (r: Option<&Point>)
        requires
            self.wf(),
        ensures
            match r {
                Some(p) => x < self.width && y < self.height && *p == self.point_at(x as int, y as int),
                None => !(x < self.width && y < self.height),
            },
    {
        if x < self.width && y < self.height {
            Some(&self.points[y][x])
        } else {
            None
        }
    }

    /// The point at (`x`, `y`), to change, if the cell is on the map.
    pub fn get_point_mut(&mut self, x: usize, y: usize) -> (r: Option<&mut Point>)
        requires
            old(self).wf(),
        ensures
            match r {
                Some(p) => {
                    &&& x < old(self).width && y < old(self).height
                    &&& *p == old(self).point_at(x as int, y as int)
                    &&& final(self).name == old(self).name
                    &&& final(self).width == old(self).width
                    &&& final(self).height == old(self).height
                    &&& final(self).map_type == old(self).map_type
                    &&& final(self).points@.len() == old(self).points@.len()
                    &&& forall|j: int| 0 <= j < old(self).points@.len() && j != y ==> #[trigger] final(self).points@[j] == old(self).points@[j]
                    &&& final(self).points@[y as int]@ == old(self).points@[y as int]@.update(x as int, *final(p))
                },
                None => !(x < old(self).width && y < old(self).height) && *final(self) == *old(self),
            },
    {
        if x < self.width && y < self.height {
            let row = &mut self.points[y];
            Some(&mut row[x])
        } else {
            None
        }
    }

    /// The points around (`x`, `y`) within `radius` in each direction and
    /// on the map, row by row.
    pub fn get_surrounding_points(&self, x: usize, y: usize, radius: usize) -> (r: Vec<&Point>)
        requires
            self.wf(),
            self.width > 0,
            self.height > 0,
            x + radius <= usize::MAX,
            y + radius <= usize::MAX,
        ensures
            r@.map_values(|p: &Point| *p) == rect_points(
                self.points@,
                sat_sub_usize(x as int, radius as int),
                min_int(x + radius, self.width - 1),
                sat_sub_usize(y as int, radius as int),
                min_int(y + radius, self.height - 1),
            ),
    {
        let x_start = x.saturating_sub(radius);
        let x_end = if x + radius < self.width - 1 {
            x + radius
        } else {
            self.width - 1
        };
        let y_start = y.saturating_sub(radius);
        let y_end = if y + radius < self.height - 1 {
            y + radius
        } else {
            self.height - 1
        };
        let mut surrounding: Vec<&Point> = Vec::new();
        proof {
            assert(surrounding@.map_values(|p: &Point| *p) =~= Seq::<Point>::empty());
        }
        if y_start <= y_end {
            let mut py = y_start;
            while py <= y_end
                invariant
                    self.wf(),
                    y_start <= py,
                    py <= y_end + 1,
                    y_end < self.height,
                    x_end < self.width,
                    surrounding@.map_values(|p: &Point| *p) == rect_points(
                        self.points@,
                        x_start as int,
                        x_end as int,
                        y_start as int,
                        py - 1,
                    ),
                decreases y_end + 1 - py,
            {
                let ghost before = surrounding@.map_values(|p: &Point| *p);
                if x_start <= x_end {
                    proof {
                        assert(self.points@[py as int]@.subrange(x_start as int, x_start as int)
                            =~= Seq::<Point>::empty());
                        assert(before =~= before + self.points@[py as int]@.subrange(
                            x_start as int,
                            x_start as int,
                        ));
                    }
                    let mut px = x_start;
                    while px <= x_end
                        invariant
                            self.wf(),
                            x_start <= px,
                            px <= x_end + 1,
                            x_end < self.width,
                            py < self.height,
                            surrounding@.map_values(|p: &Point| *p) == before + self.points@[
                                py as int]@.subrange(x_start as int, px as int),
                        decreases x_end + 1 - px,
                    {
                        match self.get_point(px, py) {
                            Some(point) => {
                                let ghost s0 = surrounding@;
                                surrounding.push(point);
                                proof {
                                    assert(surrounding@.map_values(|p: &Point| *p) =~= s0.map_values(
                                        |p: &Point| *p,
                                    ).push(*point));
                                    assert(self.points@[py as int]@.subrange(x_start as int, px + 1)
                                        =~= self.points@[py as int]@.subrange(
                                        x_start as int,
                                        px as int,
                                    ).push(self.points@[py as int]@[px as int]));
                                    assert(surrounding@.map_values(|p: &Point| *p) =~= before
                                        + self.points@[py as int]@.subrange(x_start as int, px + 1));
                                }
                            },
                            None => {},
                        }
                        px = px + 1;
                    }
                }
                proof {
                    assert(surrounding@.map_values(|p: &Point| *p) =~= rect_points(
                        self.points@,
                        x_start as int,
                        x_end as int,
                        y_start as int,
                        py as int,
                    ));
                }
                py = py + 1;
            }
        }
        surrounding
    }

    /// The numbers of walkable and of unwalkable points.
    pub fn get_stats(&self) -> (r: (usize, usize))
        requires
            points_in_rows(self.points@) <= usize::MAX,
        ensures
            r.0 == walkable_in_rows(self.points@),
            r.0 + r.1 == points_in_rows(self.points@),
    {
        let mut walkable: usize = 0;
        let mut unwalkable: usize = 0;
        let mut y: usize = 0;
        while y < self.points.len()
            invariant
                y <= self.points@.len(),
                points_in_rows(self.points@) <= usize::MAX,
                walkable == walkable_in_rows(self.points@.take(y as int)),
                walkable + unwalkable == points_in_rows(self.points@.take(y as int)),
            decreases self.points@.len() - y,
        {
            let row = &self.points[y];
            let ghost done = self.points@.take(y as int);
            let ghost next = self.points@.take(y + 1);
            proof {
                assert(next.drop_last() =~= done);
                assert(next.last() == *row);
                lemma_rows_prefix_le(self.points@, y + 1);
                assert(points_in_rows(next) == points_in_rows(done) + row@.len());
            }
            let mut x: usize = 0;
            while x < row.len()
                invariant
                    x <= row@.len(),
                    points_in_rows(next) <= usize::MAX,
                    next.last() == *row,
                    next.drop_last() == done,
                    points_in_rows(next) == points_in_rows(done) + row@.len(),
                    walkable == walkable_in_rows(done) + walkable_in_row(row@.take(x as int)),
                    walkable + unwalkable == points_in_rows(done) + x,
                decreases row@.len() - x,
            {
                proof {
                    assert(row@.take(x + 1).drop_last() =~= row@.take(x as int));
                }
                if row[x].walkable {
                    walkable = walkable + 1;
                } else {
                    unwalkable = unwalkable + 1;
                }
                x = x + 1;
            }
            proof {
                assert(row@.take(row@.len() as int) =~= row@);
            }
            y = y + 1;
        }
        proof {
            assert(self.points@.take(self.points@.len() as int) =~= self.points@);
        }
        (walkable, unwalkable)
    }
}

proof fn lemma_rows_prefix_le(rows: Seq<Vec<Point>>, n: int)
    requires
        0 <= n <= rows.len(),
    ensures
        points_in_rows(rows.take(n)) <= points_in_rows(rows),
    decreases rows.len(),
{
    if n < rows.len() {
        assert(rows.drop_last().take(n) =~= rows.take(n));
        lemma_rows_prefix_le(rows.drop_last(), n);
    } else {
        assert(rows.take(n) =~= rows);
    }
}

/// `a - b`, or 0 when `b` is larger.
pub open spec fn sat_sub_usize(a: int, b: int) -> int {
    if a > b {
        a - b
    } else {
        0
    }
}

/// The smaller of `a` and `b`.
pub open spec fn min_int(a: int, b: int) -> int {
    if a <= b {
        a
    } else {
        b
    }
}

/// The description that the side panel shows of a map.
pub open spec fn map_summary(width: nat, height: nat, walkable: nat, unwalkable: nat) -> Seq<char> {
    "大小: "@ + decimal(width) + " x "@ + decimal(height) + "\n可行走點: "@ + decimal(walkable)
        + "\n不可行走點: "@ + decimal(unwalkable)
}

impl Observable for GameMap {
    /// The point counts fit in a `usize`.
    open spec fn showable(&self) -> bool {
        points_in_rows(self.points@) <= usize::MAX && self.width * self.height <= usize::MAX
    }

    open spec fn title_view(&self) -> Seq<char> {
        "地圖: "@ + self.name@
    }

    open spec fn description_view(&self) -> Seq<char> {
        map_summary(
            self.width as nat,
            self.height as nat,
            walkable_in_rows(self.points@),
            (points_in_rows(self.points@) - walkable_in_rows(self.points@)) as nat,
        )
    }

    open spec fn list_view(&self) -> Seq<Seq<char>> {
        seq!["總點數: "@ + decimal((self.width * self.height) as nat), "類型: MUD地圖"@]
    }

    fn show_title(&self) -> (r: String) {
        let mut r = String::from_str("地圖: ");
        r.append(self.name.as_str());
        r
    }

    fn show_description(&self) -> (r: String) {
        let (walkable, unwalkable) = self.get_stats();
        let mut r = String::from_str("大小: ");
        push_decimal(&mut r, self.width as u64);
        r.append(" x ");
        push_decimal(&mut r, self.height as u64);
        r.append("\n可行走點: ");
        push_decimal(&mut r, walkable as u64);
        r.append("\n不可行走點: ");
        push_decimal(&mut r, unwalkable as u64);
        r
    }

    fn show_list(&self) -> (r: Vec<String>) {
        let mut total = String::from_str("總點數: ");
        push_decimal(&mut total, (self.width * self.height) as u64);
        let r = vec![total, String::from_str("類型: MUD地圖")];
        proof {
            assert(strs_view(r@) =~= self.list_view());
        }
        r
    }
}


proof fn lemma_full_rows(rows: Seq<Vec<Point>>, width: nat)
    requires
        forall|y: int| 0 <= y < rows.len() ==> #[trigger] rows[y]@.len() == width,
    ensures
        points_in_rows(rows) == rows.len() * width,
    decreases rows.len(),
{
    if rows.len() > 0 {
        let init = rows.drop_last();
        assert forall|y: int| 0 <= y < init.len() implies #[trigger] init[y]@.len() == width by {
            assert(init[y] == rows[y]);
        }
        lemma_full_rows(init, width);
        assert(rows.len() * width == (rows.len() - 1) * width + width) by (nonlinear_arith);
    }
}

/// A well-formed map has `width * height` points, so its walkable and
/// unwalkable points add up to that.
pub proof fn law_map_point_count(m: GameMap)
    requires
        m.wf(),
    ensures
        points_in_rows(m.points@) == m.width * m.height,
        walkable_in_rows(m.points@) <= m.width * m.height,
{
    lemma_full_rows(m.points@, m.width as nat);
    assert(m.points@.len() * m.width == m.width * m.height) by (nonlinear_arith)
        requires
            m.points@.len() == m.height,
    ;
    lemma_rows_walkable_le(m.points@);
}

/// Taking off an object just put on a point that did not hold it gives
/// back the objects the point had.
pub proof fn law_add_then_remove_object(objects: Seq<Seq<char>>, obj: Seq<char>)
    requires
        !objects.contains(obj),
    ensures
        objects.push(obj).contains(obj),
        without_first(objects.push(obj), obj) == objects,
{
    let t = objects.push(obj);
    assert(t[objects.len() as int] == obj);
    t.index_of_first_ensures(obj);
    let k = t.index_of_first(obj).unwrap();
    if k < objects.len() {
        assert(objects[k] == obj);
    }
    assert(t.remove(objects.len() as int) =~= objects);
}

} // verus!
