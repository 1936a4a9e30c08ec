//! Training tips, grouped by category.

use vstd::prelude::*;
use vstd::string::*;
use rand::Rng;

verus! {

#[derive(Debug, Clone, Copy, PartialEq, Eq, Hash, Structural)]
pub enum TipCategory {
    Motivation,
    Nutrition,
    Training,
    Technique,
    Recovery,
}

pub open spec fn category_emoji(c: TipCategory) -> Seq<char> {
    match c {
        TipCategory::Motivation => "💪"@,
        TipCategory::Nutrition => "🥗"@,
        TipCategory::Training => "🏋️"@,
        TipCategory::Technique => "📐"@,
        TipCategory::Recovery => "😴"@,
    }
}

pub open spec fn category_name(c: TipCategory) -> Seq<char> {
    match c {
        TipCategory::Motivation => "Мотивация"@,
        TipCategory::Nutrition => "Питание"@,
        TipCategory::Training => "Тренировка"@,
        TipCategory::Technique => "Техника"@,
        TipCategory::Recovery => "Восстановление"@,
    }
}

impl TipCategory {
    pub fn emoji(&self) -> (r: &'static str)
        ensures
            r@ == category_emoji(*self),
            r@.len() > 0,
    {
        proof {
            reveal_strlit("💪");
            reveal_strlit("🥗");
            reveal_strlit("🏋️");
            reveal_strlit("📐");
            reveal_strlit("😴");
        }
        match self {
            TipCategory::Motivation => "💪",
            TipCategory::Nutrition => "🥗",
            TipCategory::Training => "🏋️",
            TipCategory::Technique => "📐",
            TipCategory::Recovery => "😴",
        }
    }

    pub fn name(&self) -> (r: &'static str)
        ensures
            r@ == category_name(*self),
    {
        match self {
            TipCategory::Motivation => "Мотивация",
            TipCategory::Nutrition => "Питание",
            TipCategory::Training => "Тренировка",
            TipCategory::Technique => "Техника",
            TipCategory::Recovery => "Восстановление",
        }
    }
}

#[derive(Debug, Clone, Copy)]
pub struct Tip {
    pub category: TipCategory,
    pub text: &'static str,
}

/// Whether some tip of `s` has category `c`.
pub open spec fn has_category(s: Seq<Tip>, c: TipCategory) -> bool {
    exists|i: int| 0 <= i < s.len() && (#[trigger] s[i]).category == c
}

/// All tips.
pub fn get_tips() -> (r: Vec<Tip>)
    ensures
        r@.len() == 29,
        forall|i: int| 0 <= i < r@.len() ==> (#[trigger] r@[i]).text@.len() > 0,
        forall|c: TipCategory| #[trigger] has_category(r@, c),
{
    proof {
        reveal_strlit("Единственное, что может вас остановить — это вы сами. Отбросьте всё, что мешает достичь цели.");
        reveal_strlit("Лучший фитнес-тренажёр уже при вас — ваше собственное тело. И оно всегда с вами!");
        reveal_strlit("Нет времени? Хорошие тренировки необязательно должны быть длинными. 20-30 минут 4 раза в неделю — достаточно.");
        reveal_strlit("Успех спортивных тренировок непременно приведёт к успеху в других сферах жизни.");
        reveal_strlit("Желание и усердие приводят к успеху. Чтобы придерживаться решения, надо расслабиться и держать форму.");
        reveal_strlit("Напряжение, паника и беспокойство высасывают энергию. Оставайтесь расслабленным, чтобы пережить трудное.");
        reveal_strlit("Съедайте пищу в 5 приёмов за день, каждые 2,5-3,5 часа. Это поддержит уровень энергии стабильным.");
        reveal_strlit("3 грамма белка на каждый килограмм вашего идеального веса — основа для сохранения и роста мышц.");
        reveal_strlit("Не морите себя голодом и не переедайте. Ешьте до того, как исчезнет чувство голода.");
        reveal_strlit("Телу нужно 15-20 минут, чтобы осознать, что голод утолён. Не торопитесь во время еды!");
        reveal_strlit("Держитесь подальше от переработанных сахаров — они повсюду! Выбирайте углеводы с низким гликемическим индексом.");
        reveal_strlit("Пейте минимум 2 литра воды в день. Ваша моча должна быть бесцветной или слегка желтоватой.");
        reveal_strlit("Никогда не выходите из дома на голодный желудок. Съешьте что-нибудь заранее перед рестораном или вечеринкой.");
        reveal_strlit("Утром тело голодало всю ночь. Первый приём пищи запустит метаболизм и поступление питательных веществ.");
        reveal_strlit("ПОСЛЕДОВАТЕЛЬНОСТЬ — настоящий страж длительного успеха. Не на пару месяцев, а на годы и десятки лет.");
        reveal_strlit("ВОССТАНОВЛЕНИЕ: Содержится ли в программе время для отдыха? Переутомление — враг прогресса.");
        reveal_strlit("РЕГУЛЯРНОСТЬ: Тело не приспособится к спонтанной активности. Ставьте цели и методично добивайтесь их.");
        reveal_strlit("ВАРИАТИВНОСТЬ: Варьируйте интенсивность, объём и время отдыха. Не меняйте упражнения каждый день.");
        reveal_strlit("ПРОГРЕСС: Не поднимайте одни и те же гантели годами. Переходите к более сложным вариациям упражнений.");
        reveal_strlit("ПЕРЕГРУЗКА: Чтобы набрать силу, ставьте мышцы в неудобное положение. Телу нужен стимул для адаптации.");
        reveal_strlit("Способы усложнить упражнение: повысить нагрузку, неустойчивая поверхность, паузы, движение одной конечностью.");
        reveal_strlit("Специально делайте паузу на 3 секунды в самой сложной части движения — это прекрасно вырабатывает силу.");
        reveal_strlit("После мышечного истощения попробуйте более лёгкую версию упражнения и доведите её до максимума.");
        reveal_strlit("Силовые упражнения задействуют сразу несколько групп мышц и сильно нагружают кор.");
        reveal_strlit("Чем ниже поверхность опоры при отжиманиях — тем тяжелее задача. Регулируйте сложность высотой.");
        reveal_strlit("Силовая тренировка даёт импульс метаболизму на 48 часов. Вы сжигаете калории даже во сне!");
        reveal_strlit("С возрастом тело теряет мышцы и метаболизм замедляется. Силовые тренировки восстанавливают юношеский метаболизм.");
        reveal_strlit("Полкило мышц сжигает 10 калорий в день даже в покое. 2,5 кг мышц = минус 2,5 кг жира в год.");
        reveal_strlit("Интервалы отдыха: 30-60 сек для выносливости, 90-120 сек для силы, 2,5-5 мин для мощности.");
    }
    let r = vec![
        Tip { category: TipCategory::Motivation, text: "Единственное, что может вас остановить — это вы сами. Отбросьте всё, что мешает достичь цели." },
        Tip { category: TipCategory::Motivation, text: "Лучший фитнес-тренажёр уже при вас — ваше собственное тело. И оно всегда с вами!" },
        Tip { category: TipCategory::Motivation, text: "Нет времени? Хорошие тренировки необязательно должны быть длинными. 20-30 минут 4 раза в неделю — достаточно." },
        Tip { category: TipCategory::Motivation, text: "Успех спортивных тренировок непременно приведёт к успеху в других сферах жизни." },
        Tip { category: TipCategory::Motivation, text: "Желание и усердие приводят к успеху. Чтобы придерживаться решения, надо расслабиться и держать форму." },
        Tip { category: TipCategory::Motivation, text: "Напряжение, паника и беспокойство высасывают энергию. Оставайтесь расслабленным, чтобы пережить трудное." },
        Tip { category: TipCategory::Nutrition, text: "Съедайте пищу в 5 приёмов за день, каждые 2,5-3,5 часа. Это поддержит уровень энергии стабильным." },
        Tip { category: TipCategory::Nutrition, text: "3 грамма белка на каждый килограмм вашего идеального веса — основа для сохранения и роста мышц." },
        Tip { category: TipCategory::Nutrition, text: "Не морите себя голодом и не переедайте. Ешьте до того, как исчезнет чувство голода." },
        Tip { category: TipCategory::Nutrition, text: "Телу нужно 15-20 минут, чтобы осознать, что голод утолён. Не торопитесь во время еды!" },
        Tip { category: TipCategory::Nutrition, text: "Держитесь подальше от переработанных сахаров — они повсюду! Выбирайте углеводы с низким гликемическим индексом." },
        Tip { category: TipCategory::Nutrition, text: "Пейте минимум 2 литра воды в день. Ваша моча должна быть бесцветной или слегка желтоватой." },
        Tip { category: TipCategory::Nutrition, text: "Никогда не выходите из дома на голодный желудок. Съешьте что-нибудь заранее перед рестораном или вечеринкой." },
        Tip { category: TipCategory::Nutrition, text: "Утром тело голодало всю ночь. Первый приём пищи запустит метаболизм и поступление питательных веществ." },
        Tip { category: TipCategory::Training, text: "ПОСЛЕДОВАТЕЛЬНОСТЬ — настоящий страж длительного успеха. Не на пару месяцев, а на годы и десятки лет." },
        Tip { category: TipCategory::Training, text: "ВОССТАНОВЛЕНИЕ: Содержится ли в программе время для отдыха? Переутомление — враг прогресса." },
        Tip { category: TipCategory::Training, text: "РЕГУЛЯРНОСТЬ: Тело не приспособится к спонтанной активности. Ставьте цели и методично добивайтесь их." },
        Tip { category: TipCategory::Training, text: "ВАРИАТИВНОСТЬ: Варьируйте интенсивность, объём и время отдыха. Не меняйте упражнения каждый день." },
        Tip { category: TipCategory::Training, text: "ПРОГРЕСС: Не поднимайте одни и те же гантели годами. Переходите к более сложным вариациям упражнений." },
        Tip { category: TipCategory::Training, text: "ПЕРЕГРУЗКА: Чтобы набрать силу, ставьте мышцы в неудобное положение. Телу нужен стимул для адаптации." },
        Tip { category: TipCategory::Technique, text: "Способы усложнить упражнение: повысить нагрузку, неустойчивая поверхность, паузы, движение одной конечностью." },
        Tip { category: TipCategory::Technique, text: "Специально делайте паузу на 3 секунды в самой сложной части движения — это прекрасно вырабатывает силу." },
        Tip { category: TipCategory::Technique, text: "После мышечного истощения попробуйте более лёгкую версию упражнения и доведите её до максимума." },
        Tip { category: TipCategory::Technique, text: "Силовые упражнения задействуют сразу несколько групп мышц и сильно нагружают кор." },
        Tip { category: TipCategory::Technique, text: "Чем ниже поверхность опоры при отжиманиях — тем тяжелее задача. Регулируйте сложность высотой." },
        Tip { category: TipCategory::Recovery, text: "Силовая тренировка даёт импульс метаболизму на 48 часов. Вы сжигаете калории даже во сне!" },
        Tip { category: TipCategory::Recovery, text: "С возрастом тело теряет мышцы и метаболизм замедляется. Силовые тренировки восстанавливают юношеский метаболизм." },
        Tip { category: TipCategory::Recovery, text: "Полкило мышц сжигает 10 калорий в день даже в покое. 2,5 кг мышц = минус 2,5 кг жира в год." },
        Tip { category: TipCategory::Recovery, text: "Интервалы отдыха: 30-60 сек для выносливости, 90-120 сек для силы, 2,5-5 мин для мощности." },
    ];
    assert(forall|c: TipCategory| #[trigger] has_category(r@, c)) by {
        assert(r@[0].category == TipCategory::Motivation);
        assert(r@[6].category == TipCategory::Nutrition);
        assert(r@[14].category == TipCategory::Training);
        assert(r@[20].category == TipCategory::Technique);
        assert(r@[25].category == TipCategory::Recovery);
    }
    r
}

/// Relies on rand's `Rng::gen_range`: a value of the half-open range `0..n`,
/// which must not be empty.
#[verifier::external_body]
fn random_below(n: usize) -> (r: usize)
    requires
        n > 0,
    ensures
        r < n,
{
    rand::thread_rng().gen_range(0..n)
}

/// A tip chosen at random.
pub fn get_random_tip() -> (r: Tip)
    ensures
        r.text@.len() > 0,
{
    let tips = get_tips();
    let i = random_below(tips.len());
    tips[i]
}

/// A tip of the given category chosen at random; every category has tips.
pub fn get_random_tip_by_category(category: TipCategory) -> (r: Option<Tip>)
    ensures
        r matches Some(t) && t.category == category,
{
    let tips = get_tips();
    let mut picked: Vec<usize> = Vec::new();
    let mut i: usize = 0;
    while i < tips.len()
        invariant
            i <= tips@.len(),
            forall|k: int| 0 <= k < picked@.len() ==> picked@[k] < tips@.len() && tips@[picked@[k] as int].category == category,
            picked@.len() == 0 ==> forall|j: int| 0 <= j < i ==> tips@[j].category != category,
        decreases tips@.len() - i,
    {
        if tips[i].category == category {
            picked.push(i);
        }
        i += 1;
    }
    if picked.len() == 0 {
        proof {
            assert(has_category(tips@, category));
            let w = choose|j: int| 0 <= j < tips@.len() && tips@[j].category == category;
            assert(tips@[w].category == category);
        }
        return None;
    }
    let k = random_below(picked.len());
    Some(tips[picked[k]])
}

/// The tip as a message: emoji, category name, a blank line, then the text.
pub fn format_tip(tip: &Tip) -> (r: String)
    ensures
        r@ == category_emoji(tip.category) + " "@ + category_name(tip.category) + "\n\n"@ + tip.text@,
{
    let mut r = String::from_str(tip.category.emoji());
    r.append(" ");
    r.append(tip.category.name());
    r.append("\n\n");
    r.append(tip.text);
    r
}

} // verus!
