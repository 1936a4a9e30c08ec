//! Exercise catalog: muscle groups, categories and the exercise definitions
//! that the analytics read.

use vstd::prelude::*;
use crate::text::same_text;

verus! {

/// Muscle groups tracked for training balance.
#[derive(Debug, Clone, Copy, PartialEq, Eq, Hash, PartialOrd, Ord, Structural)]
pub enum MuscleGroup {
    Chest,
    Shoulders,
    Triceps,
    Back,
    Biceps,
    Core,
    Glutes,
    Quads,
    Hamstrings,
    Calves,
    FullBody,
}

/// The fixed order of the muscle groups.
pub open spec fn all_groups() -> Seq<MuscleGroup> {
    seq![
        MuscleGroup::Chest,
        MuscleGroup::Shoulders,
        MuscleGroup::Triceps,
        MuscleGroup::Back,
        MuscleGroup::Biceps,
        MuscleGroup::Core,
        MuscleGroup::Glutes,
        MuscleGroup::Quads,
        MuscleGroup::Hamstrings,
        MuscleGroup::Calves,
        MuscleGroup::FullBody,
    ]
}

/// Position of a group in `all_groups()`.
pub open spec fn group_index(g: MuscleGroup) -> int {
    match g {
        MuscleGroup::Chest => 0,
        MuscleGroup::Shoulders => 1,
        MuscleGroup::Triceps => 2,
        MuscleGroup::Back => 3,
        MuscleGroup::Biceps => 4,
        MuscleGroup::Core => 5,
        MuscleGroup::Glutes => 6,
        MuscleGroup::Quads => 7,
        MuscleGroup::Hamstrings => 8,
        MuscleGroup::Calves => 9,
        MuscleGroup::FullBody => 10,
    }
}

pub proof fn lemma_group_index(g: MuscleGroup)
    ensures
        0 <= group_index(g) < 11,
        all_groups()[group_index(g)] == g,
        all_groups().len() == 11,
{
}

pub open spec fn muscle_name(g: MuscleGroup) -> Seq<char> {
    match g {
        MuscleGroup::Chest => "грудные"@,
        MuscleGroup::Shoulders => "плечи"@,
        MuscleGroup::Triceps => "трицепс"@,
        MuscleGroup::Back => "спина"@,
        MuscleGroup::Biceps => "бицепс"@,
        MuscleGroup::Core => "кор"@,
        MuscleGroup::Glutes => "ягодицы"@,
        MuscleGroup::Quads => "квадрицепсы"@,
        MuscleGroup::Hamstrings => "бицепс бедра"@,
        MuscleGroup::Calves => "икры"@,
        MuscleGroup::FullBody => "всё тело"@,
    }
}

impl MuscleGroup {
    /// Display name of the group.
    pub fn name_ru(&self) -> (r: &'static str)
        ensures
            r@ == muscle_name(*self),
    {
        match self {
            MuscleGroup::Chest => "грудные",
            MuscleGroup::Shoulders => "плечи",
            MuscleGroup::Triceps => "трицепс",
            MuscleGroup::Back => "спина",
            MuscleGroup::Biceps => "бицепс",
            MuscleGroup::Core => "кор",
            MuscleGroup::Glutes => "ягодицы",
            MuscleGroup::Quads => "квадрицепсы",
            MuscleGroup::Hamstrings => "бицепс бедра",
            MuscleGroup::Calves => "икры",
            MuscleGroup::FullBody => "всё тело",
        }
    }

    /// All muscle groups, in their fixed order.
    pub fn all() -> (r: &'static [MuscleGroup])
        ensures
            r@ == all_groups(),
    {
        let r: &'static [MuscleGroup] = &[
            MuscleGroup::Chest,
            MuscleGroup::Shoulders,
            MuscleGroup::Triceps,
            MuscleGroup::Back,
            MuscleGroup::Biceps,
            MuscleGroup::Core,
            MuscleGroup::Glutes,
            MuscleGroup::Quads,
            MuscleGroup::Hamstrings,
            MuscleGroup::Calves,
            MuscleGroup::FullBody,
        ];
        assert(r@ =~= all_groups());
        r
    }
}

#[derive(Debug, Clone, Copy)]
pub struct Exercise {
    pub id: &'static str,
    pub name: &'static str,
    pub category: Category,
    pub muscle_groups: &'static [MuscleGroup],
    pub is_base: bool,
    /// Timed exercises are measured in seconds, the others in repetitions.
    pub is_timed: bool,
    pub description: Option<&'static str>,
    /// What to concentrate on while performing the exercise.
    pub focus_cues: Option<&'static str>,
}

#[derive(Debug, Clone, Copy, PartialEq, Eq, Structural)]
pub enum Category {
    Push,
    Pull,
    Core,
    Legs,
    Taiji,
    Strikes,
    Stretch,
}

pub open spec fn category_symbol(c: Category) -> Seq<char> {
    match c {
        Category::Push => "💪"@,
        Category::Pull => "🏋️"@,
        Category::Core => "🎯"@,
        Category::Legs => "🦵"@,
        Category::Taiji => "☯"@,
        Category::Strikes => "👊"@,
        Category::Stretch => "🧘"@,
    }
}

impl Category {
    pub fn emoji(&self) -> (r: &'static str)
        ensures
            r@ == category_symbol(*self),
            r@.len() > 0,
    {
        proof {
            reveal_strlit("💪");
            reveal_strlit("🏋️");
            reveal_strlit("🎯");
            reveal_strlit("🦵");
            reveal_strlit("☯");
            reveal_strlit("👊");
            reveal_strlit("🧘");
        }
        match self {
            Category::Push => "💪",
            Category::Pull => "🏋️",
            Category::Core => "🎯",
            Category::Legs => "🦵",
            Category::Taiji => "☯",
            Category::Strikes => "👊",
            Category::Stretch => "🧘",
        }
    }
}

/// Id of the base exercise that opens the daily program.
pub const WARMUP_ID: &'static str = "taiji_shadow";

/// Id of the base exercise that closes the daily program.
pub const COOLDOWN_ID: &'static str = "taiji_shadow_weapon";

/// A catalog entry targets at least one and at most all muscle groups.
pub open spec fn well_formed_entry(e: Exercise) -> bool {
    0 < e.muscle_groups@.len() <= 11
}

/// Every entry of the catalog is well formed.
pub open spec fn well_formed_catalog(c: Seq<Exercise>) -> bool {
    forall|i: int| 0 <= i < c.len() ==> well_formed_entry(#[trigger] c[i])
}

/// The daily base program.
pub fn get_base_exercises() -> (r: Vec<Exercise>)
    ensures
        r@.len() == 8,
        forall|i: int| 0 <= i < r@.len() ==> (#[trigger] r@[i]).is_base && well_formed_entry(r@[i]),
        r@.map_values(|e: Exercise| e.id@) == catalog_ids().subrange(0, 8),
        r@.map_values(|e: Exercise| e.name@) == catalog_names().subrange(0, 8),
{
    let r = vec![
        Exercise {
            id: "pushups_fist",
            name: "отжимания на кулаках",
            category: Category::Push,
            muscle_groups: &[MuscleGroup::Chest, MuscleGroup::Triceps, MuscleGroup::Shoulders, MuscleGroup::Core],
            is_base: true,
            is_timed: false,
            description: None,
            focus_cues: None,
        },
        Exercise {
            id: "pushups_handles",
            name: "отжимания с ручками",
            category: Category::Push,
            muscle_groups: &[MuscleGroup::Chest, MuscleGroup::Triceps, MuscleGroup::Shoulders, MuscleGroup::Core],
            is_base: true,
            is_timed: false,
            description: None,
            focus_cues: None,
        },
        Exercise {
            id: "jackknife",
            name: "пресс складной нож",
            category: Category::Core,
            muscle_groups: &[MuscleGroup::Core],
            is_base: true,
            is_timed: false,
            description: None,
            focus_cues: None,
        },
        Exercise {
            id: "plank_elbows",
            name: "стойка на локтях",
            category: Category::Core,
            muscle_groups: &[MuscleGroup::Core, MuscleGroup::Shoulders],
            is_base: true,
            is_timed: true,
            description: None,
            focus_cues: None,
        },
        Exercise {
            id: "squats_strikes",
            name: "приседания с ударами",
            category: Category::Legs,
            muscle_groups: &[MuscleGroup::Quads, MuscleGroup::Glutes, MuscleGroup::Core, MuscleGroup::Shoulders],
            is_base: true,
            is_timed: false,
            description: None,
            focus_cues: None,
        },
        Exercise {
            id: "taiji_shadow",
            name: "тайцзи бой с тенью",
            category: Category::Taiji,
            muscle_groups: &[MuscleGroup::FullBody],
            is_base: true,
            is_timed: true,
            description: Some("Разминка. Выполняется в начале комплекса"),
            focus_cues: None,
        },
        Exercise {
            id: "swimmer",
            name: "пловец",
            category: Category::Core,
            muscle_groups: &[MuscleGroup::Back, MuscleGroup::Shoulders],
            is_base: true,
            is_timed: false,
            description: Some("Лёжа на животе, попеременно поднимай противоположные руку и ногу, имитируя плавание"),
            focus_cues: Some("Контролируй движение, не раскачивайся. Напрягай спину при каждом подъёме. Дыши ровно"),
        },
        Exercise {
            id: "taiji_shadow_weapon",
            name: "тайцзи бой с тенью с оружием",
            category: Category::Taiji,
            muscle_groups: &[MuscleGroup::FullBody],
            is_base: true,
            is_timed: true,
            description: Some("Завершение комплекса. Выполняется после всех базовых упражнений"),
            focus_cues: None,
        },
    ];
    assert(r@.map_values(|e: Exercise| e.id@) =~= catalog_ids().subrange(0, 8));
    assert(r@.map_values(|e: Exercise| e.name@) =~= catalog_names().subrange(0, 8));
    r
}

/// The bonus exercises, offered once the base program is done.
pub fn extra_exercises() -> (r: Vec<Exercise>)
    ensures
        r@.len() == 20,
        forall|i: int|
            0 <= i < r@.len() ==> !(#[trigger] r@[i]).is_base && r@[i].description.is_some()
                && well_formed_entry(r@[i]),
        r@.map_values(|e: Exercise| e.id@) == catalog_ids().subrange(8, 28),
        r@.map_values(|e: Exercise| e.name@) == catalog_names().subrange(8, 28),
{
    let r = vec![
        Exercise {
            id: "let_me_in",
            name: "впусти меня",
            category: Category::Pull,
            muscle_groups: &[MuscleGroup::Back, MuscleGroup::Biceps, MuscleGroup::Shoulders],
            is_base: false,
            is_timed: false,
            description: Some("Стоя лицом к двери, держась за ручки с двух сторон. Ноги по бокам двери. Подтягивайся к двери, сгибая локти"),
            focus_cues: Some("Своди лопатки в конце движения. Чувствуй растяжение широчайших при опускании. Не помогай корпусом"),
        },
        Exercise {
            id: "shelf_pullup",
            name: "подтягивание у полки",
            category: Category::Pull,
            muscle_groups: &[MuscleGroup::Biceps, MuscleGroup::Back],
            is_base: false,
            is_timed: false,
            description: Some("Встань у полки/перил на уровне пояса. Руки ладонями вверх под выступ. Тяни вверх, наклоняясь вперёд"),
            focus_cues: Some("Напрягай бицепсы в верхней точке. Контролируй опускание 2-3 секунды. Держи локти прижатыми к корпусу"),
        },
        Exercise {
            id: "calf_raises",
            name: "подъём на носки",
            category: Category::Legs,
            muscle_groups: &[MuscleGroup::Calves],
            is_base: false,
            is_timed: false,
            description: Some("Встань на край ступеньки носками. Поднимайся на носки и опускайся ниже уровня ступени"),
            focus_cues: Some("Максимально поднимайся на носки. Пауза 1 сек в верхней точке. Полностью растягивай икры внизу"),
        },
        Exercise {
            id: "romanian_deadlift",
            name: "румынская тяга на одной ноге",
            category: Category::Legs,
            muscle_groups: &[MuscleGroup::Hamstrings, MuscleGroup::Glutes, MuscleGroup::Core],
            is_base: false,
            is_timed: false,
            description: Some("Стоя на одной ноге, наклоняйся вперёд, отводя другую ногу назад. Спина прямая"),
            focus_cues: Some("Чувствуй растяжение задней поверхности бедра. Сжимай ягодицу при подъёме. Держи спину идеально ровной"),
        },
        Exercise {
            id: "side_lunges",
            name: "выпады в сторону",
            category: Category::Legs,
            muscle_groups: &[MuscleGroup::Quads, MuscleGroup::Glutes, MuscleGroup::Hamstrings],
            is_base: false,
            is_timed: false,
            description: Some("Шагни в сторону, согни опорную ногу до параллели бедра с полом. Вторая нога прямая. Оттолкнись и вернись"),
            focus_cues: Some("Толкайся пяткой опорной ноги. Держи колено над стопой. Чувствуй внутреннюю поверхность бедра"),
        },
        Exercise {
            id: "star_jump",
            name: "прыжок-звезда",
            category: Category::Legs,
            muscle_groups: &[MuscleGroup::Quads, MuscleGroup::Glutes, MuscleGroup::Hamstrings, MuscleGroup::Calves],
            is_base: false,
            is_timed: false,
            description: Some("Из глубокого приседа сумо выпрыгни вверх, раскинув руки и ноги звездой. Приземлись мягко на носки"),
            focus_cues: Some("Взрывное отталкивание от пола. Полное раскрытие в воздухе. Мягкое приземление с амортизацией"),
        },
        Exercise {
            id: "pogo_jumps",
            name: "пого-прыжки",
            category: Category::Legs,
            muscle_groups: &[MuscleGroup::Calves],
            is_base: false,
            is_timed: false,
            description: Some("Прыгай на месте на носках, не сгибая колени. Пятки не касаются пола. Прыгай как можно выше и чаще"),
            focus_cues: Some("Ноги как пружины - только голеностоп. Держи пресс напряжённым. Минимальное время контакта с полом"),
        },
        Exercise {
            id: "superman",
            name: "супермен",
            category: Category::Core,
            muscle_groups: &[MuscleGroup::Back, MuscleGroup::Glutes, MuscleGroup::Hamstrings],
            is_base: false,
            is_timed: true,
            description: Some("Лёжа на животе, одновременно подними руки и ноги от пола. Держи позицию. Тренирует разгибатели спины"),
            focus_cues: Some("Сжимай ягодицы. Напрягай поясницу. Тянись макушкой и пятками в разные стороны. Шея нейтральна"),
        },
        Exercise {
            id: "russian_twist",
            name: "русские скручивания",
            category: Category::Core,
            muscle_groups: &[MuscleGroup::Core],
            is_base: false,
            is_timed: false,
            description: Some("Сидя с поднятыми ногами, скручивай корпус из стороны в сторону, касаясь локтями коленей"),
            focus_cues: Some("Скручивай именно корпус, не просто руки. Напрягай косые мышцы живота. Держи ноги неподвижно"),
        },
        Exercise {
            id: "side_plank",
            name: "боковая планка",
            category: Category::Core,
            muscle_groups: &[MuscleGroup::Core, MuscleGroup::Shoulders],
            is_base: false,
            is_timed: true,
            description: Some("На боку на локте, тело прямое от головы до пяток. Держи позицию"),
            focus_cues: Some("Не проваливай таз. Напрягай боковые мышцы живота. Плечо над локтем. Дыши спокойно"),
        },
        Exercise {
            id: "t_spine_rotation",
            name: "вращение грудного отдела",
            category: Category::Stretch,
            muscle_groups: &[MuscleGroup::Back],
            is_base: false,
            is_timed: true,
            description: Some("На четвереньках, поверни корпус и подними руку к потолку. Держи 20-30 сек на каждую сторону"),
            focus_cues: Some("Чувствуй вращение между лопатками. Взгляд за рукой. Таз неподвижен. Дыши глубоко"),
        },
        Exercise {
            id: "thread_needle",
            name: "нить в иголку",
            category: Category::Stretch,
            muscle_groups: &[MuscleGroup::Shoulders, MuscleGroup::Back],
            is_base: false,
            is_timed: true,
            description: Some("На четвереньках, проведи руку под корпусом, опустив плечо на пол. Держи 20-30 сек"),
            focus_cues: Some("Расслабь плечо к полу. Чувствуй растяжение между лопаткой и позвоночником. Дыши в натяжение"),
        },
        Exercise {
            id: "child_pose",
            name: "поза ребёнка",
            category: Category::Stretch,
            muscle_groups: &[MuscleGroup::Back, MuscleGroup::Glutes],
            is_base: false,
            is_timed: true,
            description: Some("Сидя на пятках, вытяни руки вперёд, лоб на пол. Расслабься и дыши 30 сек"),
            focus_cues: Some("Расслабь поясницу. Тянись руками вперёд. Отпусти напряжение с каждым выдохом"),
        },
        Exercise {
            id: "pigeon_pose",
            name: "поза голубя",
            category: Category::Stretch,
            muscle_groups: &[MuscleGroup::Glutes, MuscleGroup::Hamstrings],
            is_base: false,
            is_timed: true,
            description: Some("Одна нога согнута впереди, другая вытянута назад. Наклонись вперёд. Держи 30 сек на каждую ногу"),
            focus_cues: Some("Чувствуй глубокое растяжение в ягодице. Опускай таз к полу. Не зажимай поясницу"),
        },
        Exercise {
            id: "figure_four_twist",
            name: "четвёрка с поворотом",
            category: Category::Stretch,
            muscle_groups: &[MuscleGroup::Glutes, MuscleGroup::Core],
            is_base: false,
            is_timed: true,
            description: Some("Лёжа на спине, положи лодыжку на колено другой ноги. Опусти обе ноги в сторону. Держи 20-30 сек"),
            focus_cues: Some("Расслабь поясницу в пол. Чувствуй растяжение в грушевидной мышце. Плечи прижаты"),
        },
        Exercise {
            id: "hip_flexor_stretch",
            name: "растяжка сгибателей бедра",
            category: Category::Stretch,
            muscle_groups: &[MuscleGroup::Quads, MuscleGroup::Core],
            is_base: false,
            is_timed: true,
            description: Some("Лёжа на спине, подтяни одно колено к груди, другую ногу держи прямой. Прижми поясницу к полу"),
            focus_cues: Some("Поясница прижата к полу - это ключ. Чувствуй растяжение передней поверхности бедра прямой ноги"),
        },
        Exercise {
            id: "seated_forward_fold",
            name: "складка сидя",
            category: Category::Stretch,
            muscle_groups: &[MuscleGroup::Hamstrings, MuscleGroup::Back],
            is_base: false,
            is_timed: true,
            description: Some("Сидя с прямыми ногами, тянись руками к носкам. Не округляй спину. Держи 30 сек"),
            focus_cues: Some("Наклоняйся от бёдер, не от поясницы. Тяни живот к бёдрам. Расслабь шею"),
        },
        Exercise {
            id: "happy_baby",
            name: "счастливый малыш",
            category: Category::Stretch,
            muscle_groups: &[MuscleGroup::Glutes, MuscleGroup::Hamstrings],
            is_base: false,
            is_timed: true,
            description: Some("Лёжа на спине, возьмись за внешние стороны стоп, колени к подмышкам. Покачивайся 30 сек"),
            focus_cues: Some("Расслабь поясницу. Колени тяни к подмышкам. Мягко покачивайся для массажа позвоночника"),
        },
        Exercise {
            id: "cobra",
            name: "кобра",
            category: Category::Stretch,
            muscle_groups: &[MuscleGroup::Core, MuscleGroup::Back],
            is_base: false,
            is_timed: true,
            description: Some("Лёжа на животе, подними грудь, упираясь ладонями. Бёдра на полу. Держи 15-20 сек"),
            focus_cues: Some("Отталкивайся руками, раскрывай грудь. Плечи от ушей. Взгляд вперёд, шея длинная"),
        },
        Exercise {
            id: "shadow_boxing",
            name: "бой с тенью",
            category: Category::Taiji,
            muscle_groups: &[MuscleGroup::FullBody],
            is_base: false,
            is_timed: true,
            description: Some("Имитация боя с невидимым противником. Удары, блоки, уклоны в свободном темпе"),
            focus_cues: Some("Работай всем телом. Вращай корпус при ударах. Держи руки у подбородка. Дыши ритмично"),
        },
    ];
    assert(r@.map_values(|e: Exercise| e.id@) =~= catalog_ids().subrange(8, 28));
    assert(r@.map_values(|e: Exercise| e.name@) =~= catalog_names().subrange(8, 28));
    r
}

/// Ids of the catalog entries, in order.
pub open spec fn catalog_ids() -> Seq<Seq<char>> {
    seq![
        "pushups_fist"@,
        "pushups_handles"@,
        "jackknife"@,
        "plank_elbows"@,
        "squats_strikes"@,
        "taiji_shadow"@,
        "swimmer"@,
        "taiji_shadow_weapon"@,
        "let_me_in"@,
        "shelf_pullup"@,
        "calf_raises"@,
        "romanian_deadlift"@,
        "side_lunges"@,
        "star_jump"@,
        "pogo_jumps"@,
        "superman"@,
        "russian_twist"@,
        "side_plank"@,
        "t_spine_rotation"@,
        "thread_needle"@,
        "child_pose"@,
        "pigeon_pose"@,
        "figure_four_twist"@,
        "hip_flexor_stretch"@,
        "seated_forward_fold"@,
        "happy_baby"@,
        "cobra"@,
        "shadow_boxing"@,
    ]
}

/// Display names of the catalog entries, in order.
pub open spec fn catalog_names() -> Seq<Seq<char>> {
    seq![
        "отжимания на кулаках"@,
        "отжимания с ручками"@,
        "пресс складной нож"@,
        "стойка на локтях"@,
        "приседания с ударами"@,
        "тайцзи бой с тенью"@,
        "пловец"@,
        "тайцзи бой с тенью с оружием"@,
        "впусти меня"@,
        "подтягивание у полки"@,
        "подъём на носки"@,
        "румынская тяга на одной ноге"@,
        "выпады в сторону"@,
        "прыжок-звезда"@,
        "пого-прыжки"@,
        "супермен"@,
        "русские скручивания"@,
        "боковая планка"@,
        "вращение грудного отдела"@,
        "нить в иголку"@,
        "поза ребёнка"@,
        "поза голубя"@,
        "четвёрка с поворотом"@,
        "растяжка сгибателей бедра"@,
        "складка сидя"@,
        "счастливый малыш"@,
        "кобра"@,
        "бой с тенью"@,
    ]
}

/// The whole catalog: the base program followed by the bonus exercises.
pub fn get_all_exercises() -> (r: Vec<Exercise>)
    ensures
        r@.len() == 28,
        forall|i: int| 0 <= i < 8 ==> (#[trigger] r@[i]).is_base,
        forall|i: int| 8 <= i < 28 ==> !(#[trigger] r@[i]).is_base && r@[i].description.is_some(),
        forall|i: int| 0 <= i < r@.len() ==> well_formed_entry(#[trigger] r@[i]),
        r@.map_values(|e: Exercise| e.id@) == catalog_ids(),
        r@.map_values(|e: Exercise| e.name@) == catalog_names(),
{
    let mut r = get_base_exercises();
    let mut extra = extra_exercises();
    let ghost b = r@;
    let ghost x = extra@;
    r.append(&mut extra);
    assert forall|i: int| 0 <= i < 28 implies #[trigger] r@[i].id@ == catalog_ids()[i] && r@[i].name@ == catalog_names()[i] by {
        if i < 8 {
            assert(r@[i] == b[i]);
            assert(b.map_values(|e: Exercise| e.id@)[i] == b[i].id@);
            assert(b.map_values(|e: Exercise| e.name@)[i] == b[i].name@);
            assert(catalog_ids().subrange(0, 8)[i] == catalog_ids()[i]);
            assert(catalog_names().subrange(0, 8)[i] == catalog_names()[i]);
        } else {
            assert(r@[i] == x[i - 8]);
            assert(x.map_values(|e: Exercise| e.id@)[i - 8] == x[i - 8].id@);
            assert(x.map_values(|e: Exercise| e.name@)[i - 8] == x[i - 8].name@);
            assert(catalog_ids().subrange(8, 28)[i - 8] == catalog_ids()[i]);
            assert(catalog_names().subrange(8, 28)[i - 8] == catalog_names()[i]);
        }
    }
    assert(r@.map_values(|e: Exercise| e.id@) =~= catalog_ids());
    assert(r@.map_values(|e: Exercise| e.name@) =~= catalog_names());
    r
}

/// Index of the first entry of `c` whose id is `id`.
pub open spec fn first_with_id(c: Seq<Exercise>, id: Seq<char>, r: Option<usize>) -> bool {
    match r {
        Some(i) => i < c.len() && c[i as int].id@ == id && forall|j: int| 0 <= j < i ==> c[j].id@ != id,
        None => forall|j: int| 0 <= j < c.len() ==> c[j].id@ != id,
    }
}

/// Index of the first entry of `c` whose name is `name`.
pub open spec fn first_with_name(c: Seq<Exercise>, name: Seq<char>, r: Option<usize>) -> bool {
    match r {
        Some(i) => i < c.len() && c[i as int].name@ == name && forall|j: int|
            0 <= j < i ==> c[j].name@ != name,
        None => forall|j: int| 0 <= j < c.len() ==> c[j].name@ != name,
    }
}

/// Position of the entry with the given id in a catalog.
pub fn position_by_id(catalog: &[Exercise], id: &str) -> (r: Option<usize>)
    ensures
        first_with_id(catalog@, id@, r),
{
    let mut i: usize = 0;
    while i < catalog.len()
        invariant
            i <= catalog@.len(),
            forall|j: int| 0 <= j < i ==> catalog@[j].id@ != id@,
        decreases catalog@.len() - i,
    {
        if same_text(catalog[i].id, id) {
            return Some(i);
        }
        i += 1;
    }
    None
}

/// Position of the entry with the given name in a catalog.
pub fn position_by_name(catalog: &[Exercise], name: &str) -> (r: Option<usize>)
    ensures
        first_with_name(catalog@, name@, r),
{
    let mut i: usize = 0;
    while i < catalog.len()
        invariant
            i <= catalog@.len(),
            forall|j: int| 0 <= j < i ==> catalog@[j].name@ != name@,
        decreases catalog@.len() - i,
    {
        if same_text(catalog[i].name, name) {
            return Some(i);
        }
        i += 1;
    }
    None
}

/// Looks an exercise up by id in the whole catalog.
pub fn find_exercise(id: &str) -> (r: Option<Exercise>)
    ensures
        r is Some <==> catalog_ids().contains(id@),
        r matches Some(e) ==> e.id@ == id@,
{
    let all = get_all_exercises();
    match position_by_id(all.as_slice(), id) {
        Some(i) => {
            assert(catalog_ids()[i as int] == all@[i as int].id@);
            Some(all[i])
        },
        None => {
            assert(!catalog_ids().contains(id@)) by {
                if catalog_ids().contains(id@) {
                    let k = choose|k: int| 0 <= k < catalog_ids().len() && catalog_ids()[k] == id@;
                    assert(all@[k].id@ == catalog_ids()[k]);
                }
            }
            None
        },
    }
}

/// Looks an exercise up by display name (the key that training records use).
pub fn find_exercise_by_name(name: &str) -> (r: Option<Exercise>)
    ensures
        r is Some <==> catalog_names().contains(name@),
        r matches Some(e) ==> e.name@ == name@,
{
    let all = get_all_exercises();
    match position_by_name(all.as_slice(), name) {
        Some(i) => {
            assert(catalog_names()[i as int] == all@[i as int].name@);
            Some(all[i])
        },
        None => {
            assert(!catalog_names().contains(name@)) by {
                if catalog_names().contains(name@) {
                    let k = choose|k: int| 0 <= k < catalog_names().len() && catalog_names()[k] == name@;
                    assert(all@[k].name@ == catalog_names()[k]);
                }
            }
            None
        },
    }
}

} // verus!
