//! The recipe registry: summaries of available recipes, their order, where a
//! recipe comes from, and how a recipe name is resolved.
use vstd::prelude::*;
use crate::recipe::Recipe;
use crate::text::{concat, concat3, text_less, text_lt, lemma_text_lt_total,
    lemma_text_lt_transitive, lemma_text_lt_asymmetric, lemma_text_lt_irreflexive};

verus! {

/// Where a recipe was loaded from.
#[derive(Debug, Clone)]
pub enum RecipeSource {
    /// A URL, or `embedded:<name>` for the built-in copy.
    Remote(String),
    /// A path on the local file system.
    Local(String),
}

/// What a listing shows of a recipe.
#[derive(Debug, Clone)]
pub struct RecipeSummary {
    pub name: String,
    pub version: String,
    pub description: String,
    pub category: String,
    pub source: RecipeSource,
}

/// The registry of recipes (the project's GitHub repository and the built-in
/// copies).
pub struct RecipeRegistry;

// ---------------------------------------------------------------------------
// Order of summaries
// ---------------------------------------------------------------------------

/// Summaries are in non-decreasing order of name.
pub open spec fn sorted_by_name(s: Seq<RecipeSummary>) -> bool {
    forall|i: int, j: int| 0 <= i < j < s.len() ==> !text_lt(#[trigger] s[j].name@, #[trigger] s[i].name@)
}

/// `p` is a permutation of `0..n`.
pub open spec fn is_perm(p: Seq<int>, n: nat) -> bool {
    &&& p.len() == n
    &&& forall|k: int| 0 <= k < n ==> 0 <= #[trigger] p[k] < n
    &&& forall|k: int, l: int| 0 <= k < n && 0 <= l < n && k != l ==> #[trigger] p[k] != #[trigger] p[l]
}

/// `out` is `inp` sorted by name, with summaries of equal name kept in their
/// given order; `p` maps each position of `out` to its position in `inp`.
pub open spec fn stable_sort_of(out: Seq<RecipeSummary>, inp: Seq<RecipeSummary>, p: Seq<int>) -> bool {
    &&& out.len() == inp.len()
    &&& is_perm(p, inp.len())
    &&& forall|k: int| 0 <= k < out.len() ==> #[trigger] out[k] == inp[p[k]]
    &&& sorted_by_name(out)
    &&& forall|k: int, l: int|
        0 <= k < l < out.len() && (#[trigger] out[k]).name@ == (#[trigger] out[l]).name@ ==> p[k] < p[l]
}

/// One insertion step keeps a stable sort.
proof fn lemma_insert_keeps_stable_sort(
    out: Seq<RecipeSummary>,
    inp: Seq<RecipeSummary>,
    p: Seq<int>,
    pos: int,
)
    requires
        inp.len() > 0,
        stable_sort_of(out, inp.drop_last(), p),
        0 <= pos <= out.len(),
        forall|j: int| 0 <= j < pos ==> !text_lt(inp.last().name@, #[trigger] out[j].name@),
        pos < out.len() ==> text_lt(inp.last().name@, out[pos].name@),
    ensures
        stable_sort_of(
            out.insert(pos, inp.last()),
            inp,
            p.take(pos) + seq![(inp.len() - 1) as int] + p.skip(pos),
        ),
{
    let x = inp.last();
    let n = inp.len() - 1;
    let o2 = out.insert(pos, x);
    let p2 = p.take(pos) + seq![n as int] + p.skip(pos);
    assert(p2.len() == inp.len());
    assert forall|k: int| 0 <= k < o2.len() implies #[trigger] o2[k] == inp[p2[k]] by {
        if k < pos {
            assert(p2[k] == p[k]);
        } else if k == pos {
            assert(p2[k] == n);
        } else {
            assert(p2[k] == p[k - 1]);
        }
    }
    assert forall|k: int| 0 <= k < inp.len() implies 0 <= #[trigger] p2[k] < inp.len() by {
        if k < pos {
            assert(p2[k] == p[k]);
        } else if k > pos {
            assert(p2[k] == p[k - 1]);
        }
    }
    assert forall|k: int, l: int|
        0 <= k < inp.len() && 0 <= l < inp.len() && k != l implies #[trigger] p2[k] != #[trigger] p2[l] by {
        if k < pos {
            assert(p2[k] == p[k]);
        } else if k > pos {
            assert(p2[k] == p[k - 1]);
        }
        if l < pos {
            assert(p2[l] == p[l]);
        } else if l > pos {
            assert(p2[l] == p[l - 1]);
        }
    }
    // every element after the insertion point is strictly above `x`
    assert forall|m: int| pos <= m < out.len() implies text_lt(x.name@, #[trigger] out[m].name@) by {
        if m > pos {
            assert(!text_lt(out[m].name@, out[pos].name@));
            lemma_text_lt_total(out[pos].name@, out[m].name@);
            if out[pos].name@ != out[m].name@ {
                lemma_text_lt_transitive(x.name@, out[pos].name@, out[m].name@);
            }
        }
    }
    assert forall|i: int, j: int| 0 <= i < j < o2.len() implies !text_lt(#[trigger] o2[j].name@, #[trigger] o2[i].name@) by {
        if j < pos {
            assert(o2[i] == out[i] && o2[j] == out[j]);
        } else if j == pos {
            assert(o2[i] == out[i]);
        } else if i == pos {
            assert(o2[j] == out[j - 1]);
            lemma_text_lt_asymmetric(x.name@, out[j - 1].name@);
        } else if i < pos {
            assert(o2[i] == out[i] && o2[j] == out[j - 1]);
        } else {
            assert(o2[i] == out[i - 1] && o2[j] == out[j - 1]);
        }
    }
    assert forall|k: int, l: int|
        0 <= k < l < o2.len() && (#[trigger] o2[k]).name@ == (#[trigger] o2[l]).name@ implies p2[k] < p2[l] by {
        if l < pos {
            assert(o2[k] == out[k] && o2[l] == out[l]);
            assert(p2[k] == p[k] && p2[l] == p[l]);
        } else if l == pos {
            assert(p2[k] == p[k]);
        } else if k == pos {
            assert(o2[l] == out[l - 1]);
            lemma_text_lt_irreflexive(x.name@);
        } else if k < pos {
            assert(o2[k] == out[k] && o2[l] == out[l - 1]);
            assert(p2[k] == p[k] && p2[l] == p[l - 1]);
        } else {
            assert(o2[k] == out[k - 1] && o2[l] == out[l - 1]);
            assert(p2[k] == p[k - 1] && p2[l] == p[l - 1]);
        }
    }
}

impl RecipeRegistry {
    /// Sorts summaries by name, keeping summaries of equal name in their
    /// given order (`sort_by(|a, b| a.name.cmp(&b.name))`).
    pub fn sort_by_name(v: Vec<RecipeSummary>) -> (r: Vec<RecipeSummary>)
        ensures
            exists|p: Seq<int>| stable_sort_of(r@, v@, p),
    {
        let mut out: Vec<RecipeSummary> = Vec::new();
        let mut rest = v;
        let ghost inp = rest@;
        assert(inp.skip(0) =~= inp);
        let ghost mut p: Seq<int> = Seq::empty();
        let mut i: usize = 0;
        let n = rest.len();
        assert(inp.take(0) =~= Seq::<RecipeSummary>::empty());
        while i < n
            invariant
                n == inp.len(),
                i <= n,
                rest@ == inp.skip(i as int),
                stable_sort_of(out@, inp.take(i as int), p),
            decreases n - i,
        {
            let x = rest.remove(0);
            assert(x == inp[i as int]);
            let mut pos: usize = 0;
            while pos < out.len() && !text_less(x.name.as_str(), out[pos].name.as_str())
                invariant
                    pos <= out.len(),
                    forall|j: int| 0 <= j < pos ==> !text_lt(x.name@, #[trigger] out@[j].name@),
                decreases out.len() - pos,
            {
                pos = pos + 1;
            }
            proof {
                let inp2 = inp.take(i + 1);
                assert(inp2.drop_last() =~= inp.take(i as int));
                assert(inp2.last() == x);
                lemma_insert_keeps_stable_sort(out@, inp2, p, pos as int);
                p = p.take(pos as int) + seq![i as int] + p.skip(pos as int);
            }
            out.insert(pos, x);
            assert(rest@ =~= inp.skip(i + 1));
            i = i + 1;
        }
        assert(inp.take(n as int) =~= inp);
        out
    }
}

// ---------------------------------------------------------------------------
// Locations in the project repository
// ---------------------------------------------------------------------------

/// Raw-content location of the repository's recipe directory.
pub open spec fn raw_recipes_prefix() -> Seq<char> {
    "https://raw.githubusercontent.com/yunhai-dev/dpilot/main/recipes/"@
}

/// Raw-content URL of the recipe file `file_name`.
pub open spec fn raw_recipe_url_spec(file_name: Seq<char>) -> Seq<char> {
    raw_recipes_prefix() + file_name
}

/// `summary` shows `recipe`, which was found at `source`.
pub open spec fn summarizes(summary: RecipeSummary, recipe: Recipe, source: RecipeSource) -> bool {
    &&& summary.name == recipe.name
    &&& summary.version == recipe.version
    &&& summary.description == recipe.description
    &&& summary.category == recipe.category
    &&& summary.source == source
}

/// `source` is the remote location `url`.
pub open spec fn is_remote_at(source: RecipeSource, url: Seq<char>) -> bool {
    source matches RecipeSource::Remote(u) && u@ == url
}

/// The fetched (URL, recipe) pairs whose content parsed, in order.
pub open spec fn parsed_only(s: Seq<(String, Option<Recipe>)>) -> Seq<(String, Recipe)>
    decreases s.len(),
{
    if s.len() == 0 {
        Seq::empty()
    } else {
        match s.last().1 {
            Some(r) => parsed_only(s.drop_last()).push((s.last().0, r)),
            None => parsed_only(s.drop_last()),
        }
    }
}

/// `r` lists the fetched recipes: one summary per entry whose content parsed,
/// showing that recipe with its URL as its source, sorted by name.
pub open spec fn lists_fetched(fetched: Seq<(String, Option<Recipe>)>, r: Seq<RecipeSummary>) -> bool {
    exists|inp: Seq<RecipeSummary>, p: Seq<int>|
        {
            &&& inp.len() == parsed_only(fetched).len()
            &&& forall|i: int|
                0 <= i < inp.len() ==> summarizes(
                    #[trigger] inp[i],
                    parsed_only(fetched)[i].1,
                    RecipeSource::Remote(parsed_only(fetched)[i].0),
                )
            &&& stable_sort_of(r, inp, p)
        }
}

/// `r` lists the built-in recipes: one summary per recipe, showing it as
/// found at its raw URL `<name>.yaml` in the repository, sorted by name.
pub open spec fn lists_builtin(embedded: Seq<Recipe>, r: Seq<RecipeSummary>) -> bool {
    exists|inp: Seq<RecipeSummary>, p: Seq<int>|
        {
            &&& inp.len() == embedded.len()
            &&& forall|i: int|
                0 <= i < inp.len() ==> {
                    &&& summarizes(#[trigger] inp[i], embedded[i], inp[i].source)
                    &&& is_remote_at(inp[i].source, raw_recipe_url_spec(embedded[i].name@ + ".yaml"@))
                }
            &&& stable_sort_of(r, inp, p)
        }
}

/// `r` is the listing to show: the repository's summaries when it gave any,
/// otherwise the built-in recipes.
pub open spec fn lists_available(
    remote: Option<Vec<RecipeSummary>>,
    embedded: Seq<Recipe>,
    r: Seq<RecipeSummary>,
) -> bool {
    match remote {
        Some(list) if list.len() > 0 => r == list@,
        _ => lists_builtin(embedded, r),
    }
}

/// An entry of a repository directory listing.
#[derive(Debug, Clone)]
pub struct GithubContentItem {
    pub name: String,
    pub download_url: Option<String>,
}

/// The file is a YAML file by its name.
pub open spec fn is_yaml_name(name: Seq<char>) -> bool {
    crate::text::has_suffix(name, ".yaml"@) || crate::text::has_suffix(name, ".yml"@)
}

/// Where an entry's content is fetched from: its download URL, or the raw
/// URL built from its name.
pub open spec fn item_url(item: GithubContentItem) -> Seq<char> {
    match item.download_url {
        Some(u) => u@,
        None => raw_recipe_url_spec(item.name@),
    }
}

/// The URLs of the YAML entries of a listing, in listing order.
pub open spec fn recipe_urls_spec(items: Seq<GithubContentItem>) -> Seq<Seq<char>>
    decreases items.len(),
{
    if items.len() == 0 {
        Seq::empty()
    } else if is_yaml_name(items.last().name@) {
        recipe_urls_spec(items.drop_last()).push(item_url(items.last()))
    } else {
        recipe_urls_spec(items.drop_last())
    }
}

/// The text of an optional string slice.
pub open spec fn opt_text(o: Option<&str>) -> Option<Seq<char>> {
    match o {
        Some(c) => Some(c@),
        None => None,
    }
}

/// The summaries whose category equals `category` up to ASCII case (all of
/// them when there is no category), in their order.
pub open spec fn category_filter(s: Seq<RecipeSummary>, category: Option<Seq<char>>) -> Seq<RecipeSummary>
    decreases s.len(),
{
    if s.len() == 0 {
        Seq::empty()
    } else {
        let rest = category_filter(s.drop_last(), category);
        match category {
            Some(c) => if crate::text::eq_ignore_case(s.last().category@, c) {
                rest.push(s.last())
            } else {
                rest
            },
            None => rest.push(s.last()),
        }
    }
}

impl RecipeRegistry {
    /// The raw-content URL of the recipe file `file_name` in the repository.
    pub fn raw_recipe_url(file_name: &str) -> (r: String)
        ensures
            r@ == raw_recipe_url_spec(file_name@),
    {
        concat("https://raw.githubusercontent.com/yunhai-dev/dpilot/main/recipes/", file_name)
    }

    /// The contents-API URL listing the repository's recipe directory.
    pub fn contents_api_url() -> (r: String)
        ensures
            r@ == "https://api.github.com/repos/yunhai-dev/dpilot/contents/recipes?ref=main"@,
    {
        crate::text::owned("https://api.github.com/repos/yunhai-dev/dpilot/contents/recipes?ref=main")
    }

    /// The summary of `recipe`, found at `source`.
    pub fn summary_of(recipe: Recipe, source: RecipeSource) -> (s: RecipeSummary)
        ensures
            summarizes(s, recipe, source),
    {
        RecipeSummary {
            name: recipe.name,
            version: recipe.version,
            description: recipe.description,
            category: recipe.category,
            source,
        }
    }

    /// The URLs to fetch for a directory listing: YAML files only (`.yaml` or
    /// `.yml`), each at its download URL or else at the raw URL of its name.
    pub fn remote_recipe_urls(items: &Vec<GithubContentItem>) -> (r: Vec<String>)
        ensures
            crate::text::views(r@) == recipe_urls_spec(items@),
    {
        let mut out: Vec<String> = Vec::new();
        let mut i: usize = 0;
        assert(items@.take(0) =~= Seq::<GithubContentItem>::empty());
        while i < items.len()
            invariant
                i <= items.len(),
                crate::text::views(out@) == recipe_urls_spec(items@.take(i as int)),
            decreases items.len() - i,
        {
            let item = &items[i];
            let ghost before = out@;
            assert(items@.take(i + 1).drop_last() =~= items@.take(i as int));
            if crate::text::ends_with(item.name.as_str(), ".yaml") || crate::text::ends_with(
                item.name.as_str(),
                ".yml",
            ) {
                let url = match &item.download_url {
                    Some(u) => u.clone(),
                    None => Self::raw_recipe_url(item.name.as_str()),
                };
                out.push(url);
                assert(crate::text::views(out@) =~= crate::text::views(before).push(
                    item_url(items@[i as int]),
                ));
            }
            i = i + 1;
        }
        assert(items@.take(i as int) =~= items@);
        out
    }

    /// The summaries of the recipes fetched from their URLs, sorted by name;
    /// entries whose content did not parse as a recipe (`None`) are left out.
    pub fn remote_summaries(fetched: Vec<(String, Option<Recipe>)>) -> (r: Vec<RecipeSummary>)
        ensures
            lists_fetched(fetched@, r@),
    {
        let mut rest = fetched;
        let ghost all = rest@;
        let mut inp: Vec<RecipeSummary> = Vec::new();
        let n = rest.len();
        let mut i: usize = 0;
        assert(all.skip(0) =~= all);
        assert(all.take(0) =~= Seq::<(String, Option<Recipe>)>::empty());
        while i < n
            invariant
                n == all.len(),
                i <= n,
                rest@ == all.skip(i as int),
                inp@.len() == parsed_only(all.take(i as int)).len(),
                forall|k: int|
                    0 <= k < inp@.len() ==> summarizes(
                        #[trigger] inp@[k],
                        parsed_only(all.take(i as int))[k].1,
                        RecipeSource::Remote(parsed_only(all.take(i as int))[k].0),
                    ),
            decreases n - i,
        {
            let (url, parsed) = rest.remove(0);
            let ghost before = parsed_only(all.take(i as int));
            assert(all.take(i + 1).drop_last() =~= all.take(i as int));
            assert(all.take(i + 1).last() == all[i as int]);
            if let Some(recipe) = parsed {
                inp.push(Self::summary_of(recipe, RecipeSource::Remote(url)));
                assert(parsed_only(all.take(i + 1)) == before.push((all[i as int].0, all[i as int].1.unwrap())));
            }
            assert(rest@ =~= all.skip(i + 1));
            i = i + 1;
        }
        assert(all.take(n as int) =~= all);
        let ghost inp_view = inp@;
        let r = Self::sort_by_name(inp);
        assert(forall|k: int| 0 <= k < inp_view.len() ==> summarizes(
            #[trigger] inp_view[k],
            parsed_only(all)[k].1,
            RecipeSource::Remote(parsed_only(all)[k].0),
        ));
        r
    }

    /// The summaries of the built-in recipes, each located at its raw URL
    /// `<name>.yaml` in the repository, sorted by name.
    pub fn embedded_summaries(embedded: Vec<Recipe>) -> (r: Vec<RecipeSummary>)
        ensures
            lists_builtin(embedded@, r@),
    {
        let mut rest = embedded;
        let ghost all = rest@;
        let mut inp: Vec<RecipeSummary> = Vec::new();
        let n = rest.len();
        let mut i: usize = 0;
        assert(all.skip(0) =~= all);
        while i < n
            invariant
                n == all.len(),
                i <= n,
                rest@ == all.skip(i as int),
                inp@.len() == i,
                forall|k: int|
                    0 <= k < i ==> {
                        &&& summarizes(#[trigger] inp@[k], all[k], inp@[k].source)
                        &&& is_remote_at(inp@[k].source, raw_recipe_url_spec(all[k].name@ + ".yaml"@))
                    },
            decreases n - i,
        {
            let recipe = rest.remove(0);
            let file = concat(recipe.name.as_str(), ".yaml");
            let url = Self::raw_recipe_url(file.as_str());
            inp.push(Self::summary_of(recipe, RecipeSource::Remote(url)));
            assert(rest@ =~= all.skip(i + 1));
            i = i + 1;
        }
        let ghost inp_view = inp@;
        let r = Self::sort_by_name(inp);
        assert(forall|k: int| 0 <= k < inp_view.len() ==> {
            &&& summarizes(#[trigger] inp_view[k], all[k], inp_view[k].source)
            &&& is_remote_at(inp_view[k].source, raw_recipe_url_spec(all[k].name@ + ".yaml"@))
        });
        r
    }

    /// The recipes to list: the summaries read from the repository when that
    /// gave any, otherwise those of the built-in recipes.
    pub fn list_available(remote: Option<Vec<RecipeSummary>>, embedded: Vec<Recipe>) -> (r: Vec<RecipeSummary>)
        ensures
            lists_available(remote, embedded@, r@),
    {
        if let Some(list) = remote {
            if list.len() > 0 {
                return list;
            }
        }
        Self::embedded_summaries(embedded)
    }

    /// The summaries of category `category` (ignoring ASCII case), or all of
    /// them when no category is given, in their order.
    pub fn filter_by_category(list: Vec<RecipeSummary>, category: Option<&str>) -> (r: Vec<RecipeSummary>)
        ensures
            r@ == category_filter(list@, opt_text(category)),
    {
        let mut rest = list;
        let ghost all = rest@;
        let ghost cat = opt_text(category);
        let mut out: Vec<RecipeSummary> = Vec::new();
        let n = rest.len();
        let mut i: usize = 0;
        assert(all.skip(0) =~= all);
        assert(all.take(0) =~= Seq::<RecipeSummary>::empty());
        while i < n
            invariant
                n == all.len(),
                i <= n,
                rest@ == all.skip(i as int),
                cat == opt_text(category),
                out@ == category_filter(all.take(i as int), cat),
            decreases n - i,
        {
            let s = rest.remove(0);
            assert(all.take(i + 1).drop_last() =~= all.take(i as int));
            assert(all.take(i + 1).last() == s);
            let keep = match category {
                Some(c) => crate::text::eq_ignore_ascii_case(s.category.as_str(), c),
                None => true,
            };
            if keep {
                out.push(s);
            }
            assert(rest@ =~= all.skip(i + 1));
            i = i + 1;
        }
        assert(all.take(n as int) =~= all);
        out
    }
}

// ---------------------------------------------------------------------------
// Resolving a recipe identifier
// ---------------------------------------------------------------------------

/// Where a recipe identifier leads.
#[derive(Debug, Clone)]
pub enum ResolveRoute {
    /// A recipe file on disk.
    LocalFile { path: String },
    /// A recipe at an HTTP(S) URL.
    RemoteUrl { url: String },
    /// A recipe of the registry: its name and its raw URL in the repository.
    Registry { name: String, url: String },
}

/// Why a recipe could not be resolved.
#[derive(Debug, Clone)]
pub enum ResolveError {
    /// Reading, fetching or parsing the recipe failed with this message.
    Load { message: String },
    /// Neither the repository nor the built-in recipes have it.
    NotFound { identifier: String, url: String },
}

/// A registry name from an identifier: trailing `.yaml`, then trailing `.yml`,
/// removed.
pub open spec fn clean_name_spec(identifier: Seq<char>) -> Seq<char> {
    crate::text::strip_suffixes(crate::text::strip_suffixes(identifier, ".yaml"@), ".yml"@)
}

/// The identifier is an HTTP(S) URL.
pub open spec fn is_url(identifier: Seq<char>) -> bool {
    crate::text::has_prefix(identifier, "http://"@) || crate::text::has_prefix(identifier, "https://"@)
}

/// The route of an identifier: an explicit file first, then an identifier that
/// names an existing file, then a URL, and otherwise a registry name.
pub open spec fn route_spec(
    identifier: Seq<char>,
    custom_file: Option<String>,
    identifier_is_file: bool,
    r: ResolveRoute,
) -> bool {
    match custom_file {
        Some(p) => r == ResolveRoute::LocalFile { path: p },
        None => if identifier_is_file {
            r matches ResolveRoute::LocalFile { path } && path@ == identifier
        } else if is_url(identifier) {
            r matches ResolveRoute::RemoteUrl { url } && url@ == identifier
        } else {
            r matches ResolveRoute::Registry { name, url } && name@ == clean_name_spec(identifier)
                && url@ == raw_recipe_url_spec(clean_name_spec(identifier) + ".yaml"@)
        },
    }
}

/// Some recipe of `recipes` is named `name`.
pub open spec fn has_named(recipes: Seq<Recipe>, name: Seq<char>) -> bool {
    exists|i: int| 0 <= i < recipes.len() && (#[trigger] recipes[i]).name@ == name
}

/// `recipes[i]` is the first recipe named `name`.
pub open spec fn first_named(recipes: Seq<Recipe>, name: Seq<char>, i: int) -> bool {
    &&& 0 <= i < recipes.len()
    &&& recipes[i].name@ == name
    &&& forall|j: int| 0 <= j < i ==> (#[trigger] recipes[j]).name@ != name
}

/// The outcome of resolving along `route`, given the outcome `loaded` of
/// loading the route's location (reading the file, or fetching the URL).
pub open spec fn resolve_spec(
    route: ResolveRoute,
    identifier: Seq<char>,
    loaded: Result<Recipe, String>,
    embedded: Seq<Recipe>,
    r: Result<(Recipe, RecipeSource), ResolveError>,
) -> bool {
    match route {
        ResolveRoute::LocalFile { path } => match loaded {
            Ok(rec) => r == Ok::<(Recipe, RecipeSource), ResolveError>((rec, RecipeSource::Local(path))),
            Err(m) => r == Err::<(Recipe, RecipeSource), ResolveError>(ResolveError::Load { message: m }),
        },
        ResolveRoute::RemoteUrl { url } => match loaded {
            Ok(rec) => r == Ok::<(Recipe, RecipeSource), ResolveError>((rec, RecipeSource::Remote(url))),
            Err(m) => r == Err::<(Recipe, RecipeSource), ResolveError>(ResolveError::Load { message: m }),
        },
        ResolveRoute::Registry { name, url } => match loaded {
            Ok(rec) => r == Ok::<(Recipe, RecipeSource), ResolveError>((rec, RecipeSource::Remote(url))),
            Err(_) => if has_named(embedded, name@) {
                r matches Ok((rec, RecipeSource::Remote(label))) && label@ == "embedded:"@ + name@
                    && exists|i: int| first_named(embedded, name@, i) && rec == embedded[i]
            } else {
                r matches Err(ResolveError::NotFound { identifier: id, url: u }) && id@ == identifier
                    && u == url
            },
        },
    }
}

impl RecipeRegistry {
    /// The registry name of an identifier (`.yaml`/`.yml` endings removed).
    pub fn clean_name(identifier: &str) -> (r: String)
        ensures
            r@ == clean_name_spec(identifier@),
    {
        let a = crate::text::trim_end_matches(identifier, ".yaml");
        crate::text::trim_end_matches(a.as_str(), ".yml")
    }

    /// Where `identifier` leads. `custom_file` is an explicitly given recipe
    /// file; `identifier_is_file` tells whether `identifier` names an existing
    /// regular file.
    pub fn route(identifier: &str, custom_file: Option<String>, identifier_is_file: bool) -> (r: ResolveRoute)
        ensures
            route_spec(identifier@, custom_file, identifier_is_file, r),
    {
        match custom_file {
            Some(p) => ResolveRoute::LocalFile { path: p },
            None => {
                if identifier_is_file {
                    ResolveRoute::LocalFile { path: crate::text::owned(identifier) }
                } else if crate::text::starts_with(identifier, "http://") || crate::text::starts_with(
                    identifier,
                    "https://",
                ) {
                    ResolveRoute::RemoteUrl { url: crate::text::owned(identifier) }
                } else {
                    let name = Self::clean_name(identifier);
                    let file = concat(name.as_str(), ".yaml");
                    let url = Self::raw_recipe_url(file.as_str());
                    ResolveRoute::Registry { name, url }
                }
            },
        }
    }

    /// The first recipe of `recipes` named `name`, if any.
    pub fn find_named(recipes: Vec<Recipe>, name: &str) -> (r: Option<Recipe>)
        ensures
            r is Some <==> has_named(recipes@, name@),
            r matches Some(rec) ==> exists|i: int| first_named(recipes@, name@, i) && rec == recipes@[i],
    {
        let mut all = recipes;
        let ghost orig = all@;
        let wanted = crate::text::owned(name);
        let mut i: usize = 0;
        while i < all.len()
            invariant
                all@ == orig,
                orig == recipes@,
                wanted@ == name@,
                i <= all.len(),
                forall|k: int| 0 <= k < i ==> (#[trigger] orig[k]).name@ != name@,
            decreases all.len() - i,
        {
            if all[i].name.eq(&wanted) {
                let ghost k = i as int;
                let rec = all.remove(i);
                assert(first_named(orig, name@, k));
                assert(rec == orig[k]);
                assert(has_named(orig, name@));
                return Some(rec);
            }
            i = i + 1;
        }
        None
    }

    /// Finishes resolving along `route`. `loaded` is the outcome of loading
    /// the route's location; a registry recipe that could not be fetched falls
    /// back to the built-in recipe (from `embedded`) of the same name.
    pub fn resolve(route: ResolveRoute, identifier: &str, loaded: Result<Recipe, String>, embedded: Vec<Recipe>) -> (r: Result<
        (Recipe, RecipeSource),
        ResolveError,
    >)
        ensures
            resolve_spec(route, identifier@, loaded, embedded@, r),
    {
        match route {
            ResolveRoute::LocalFile { path } => match loaded {
                Ok(rec) => Ok((rec, RecipeSource::Local(path))),
                Err(m) => Err(ResolveError::Load { message: m }),
            },
            ResolveRoute::RemoteUrl { url } => match loaded {
                Ok(rec) => Ok((rec, RecipeSource::Remote(url))),
                Err(m) => Err(ResolveError::Load { message: m }),
            },
            ResolveRoute::Registry { name, url } => match loaded {
                Ok(rec) => Ok((rec, RecipeSource::Remote(url))),
                Err(_) => match Self::find_named(embedded, name.as_str()) {
                    Some(rec) => {
                        let label = concat("embedded:", name.as_str());
                        Ok((rec, RecipeSource::Remote(label)))
                    },
                    None => Err(ResolveError::NotFound { identifier: crate::text::owned(identifier), url }),
                },
            },
        }
    }
}

impl ResolveError {
    /// The message shown for the error.
    pub fn message(&self) -> (m: String)
        ensures
            match self {
                ResolveError::Load { message } => m@ == message@,
                ResolveError::NotFound { identifier, url } => m@ == "Recipe '"@ + identifier@
                    + "' not found on GitHub ("@ + url@ + ") or embedded registry."@,
            },
    {
        match self {
            ResolveError::Load { message } => message.clone(),
            ResolveError::NotFound { identifier, url } => {
                let a = concat3("Recipe '", identifier.as_str(), "' not found on GitHub (");
                concat3(a.as_str(), url.as_str(), ") or embedded registry.")
            },
        }
    }
}

} // verus!
