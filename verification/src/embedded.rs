//! The built-in recipes, used when the project repository cannot be reached.
use vstd::prelude::*;
use crate::recipe::{DefaultValue, InputSpec, InputType, Recipe, StepSpec};
use crate::registry::RecipeRegistry;
use crate::text::{concat, owned, views};

verus! {

/// The categories of the built-in recipes, in file-name order.
pub open spec fn embedded_categories() -> Seq<Seq<char>> {
    seq!["system"@, "service"@, "service"@, "service"@, "service"@]
}

/// The names of the built-in recipes, in file-name order.
pub open spec fn embedded_names() -> Seq<Seq<char>> {
    seq!["install-docker"@, "nginx"@, "postgres"@, "redis"@, "uptime-kuma"@]
}

/// The text of an optional string.
pub open spec fn text_of(o: Option<String>) -> Option<Seq<char>> {
    match o {
        Some(s) => Some(s@),
        None => None,
    }
}

/// The texts of an optional list of strings.
pub open spec fn texts_of(o: Option<Vec<String>>) -> Option<Seq<Seq<char>>> {
    match o {
        Some(v) => Some(views(v@)),
        None => None,
    }
}

/// `d` is the default described by `shape`: absent, or present with its text,
/// integer and boolean readings.
pub open spec fn default_is(d: Option<DefaultValue>, shape: Option<(Option<Seq<char>>, Option<i64>, Option<bool>)>) -> bool {
    match (d, shape) {
        (None, None) => true,
        (Some(v), Some((t, n, f))) => text_of(v.text) == t && v.integer == n && v.boolean == f,
        _ => false,
    }
}

/// `i` is the input with these fields, and no help text.
pub open spec fn input_is(
    i: InputSpec,
    id: Seq<char>,
    t: InputType,
    prompt: Seq<char>,
    default: Option<(Option<Seq<char>>, Option<i64>, Option<bool>)>,
    required: Option<bool>,
    options: Option<Seq<Seq<char>>>,
) -> bool {
    &&& i.id@ == id
    &&& i.input_type == t
    &&& i.prompt@ == prompt
    &&& default_is(i.default, default)
    &&& i.required == required
    &&& texts_of(i.options) == options
    &&& i.help is None
}

/// `s` is the step with this name, command and failure and output settings,
/// with no working directory, environment or platform list.
pub open spec fn step_is(s: StepSpec, name: Seq<char>, command: Seq<char>, allow_failure: bool, show_output: bool) -> bool {
    &&& s.name@ == name
    &&& s.command@ == command
    &&& s.working_dir is None
    &&& s.env is None
    &&& s.allow_failure == Some(allow_failure)
    &&& s.show_output == Some(show_output)
    &&& s.platforms is None
}

/// `r` has the common fields of a built-in recipe: version 1.0.0, author dpilot.
pub open spec fn recipe_head_is(r: Recipe, name: Seq<char>, description: Seq<char>, category: Seq<char>, platforms: Option<Seq<Seq<char>>>) -> bool {
    &&& r.name@ == name
    &&& r.version@ == "1.0.0"@
    &&& r.description@ == description
    &&& r.category@ == category
    &&& text_of(r.author) == Some("dpilot"@)
    &&& texts_of(r.platforms) == platforms
}

/// `r` is the built-in `install-docker` recipe.
pub open spec fn builtin_install_docker(r: Recipe) -> bool {
    &&& recipe_head_is(r, "install-docker"@, "在 Linux 主机上安装 Docker Engine 并启用服务"@, "system"@, Some(seq!["linux"@]))
    &&& r.inputs@.len() == 1
    &&& input_is(r.inputs@[0], "use_mirror"@, InputType::Confirm, "是否使用国内镜像源加速安装？"@, Some((None, None, Some(false))), None, None)
    &&& r.steps@.len() == 4
    &&& step_is(r.steps@[0], "下载 Docker 官方安装脚本"@, "curl -fsSL https://get.docker.com -o /tmp/get-docker.sh"@, false, false)
    &&& step_is(r.steps@[1], "执行安装脚本"@, "sudo sh /tmp/get-docker.sh{% if use_mirror %} --mirror Aliyun{% endif %}"@, false, true)
    &&& step_is(r.steps@[2], "启用并启动 Docker 服务"@, "sudo systemctl enable --now docker"@, true, true)
    &&& step_is(r.steps@[3], "检查 Docker 版本"@, "docker --version"@, false, true)
}

/// `r` is the built-in `nginx` recipe.
pub open spec fn builtin_nginx(r: Recipe) -> bool {
    &&& recipe_head_is(r, "nginx"@, "部署 Nginx Web 服务器"@, "service"@, None)
    &&& r.inputs@.len() == 3
    &&& input_is(r.inputs@[0], "container_name"@, InputType::Text, "容器名称是什么？"@, Some((Some("my-nginx"@), None, None)), Some(true), None)
    &&& input_is(r.inputs@[1], "http_port"@, InputType::Number, "映射的 HTTP 主机端口"@, Some((None, Some(80i64), None)), Some(true), None)
    &&& input_is(r.inputs@[2], "enable_https"@, InputType::Confirm, "是否同时映射 HTTPS 端口 443？"@, Some((None, None, Some(false))), None, None)
    &&& r.steps@.len() == 4
    &&& step_is(r.steps@[0], "拉取 Nginx 镜像"@, "docker pull nginx:latest"@, false, true)
    &&& step_is(r.steps@[1], "清理同名旧容器 (若存在)"@, "docker rm -f {{ container_name }} 2>/dev/null || true"@, true, true)
    &&& step_is(r.steps@[2], "启动 Nginx 容器"@, "docker run -d --name {{ container_name }} -p {{ http_port }}:80 {% if enable_https %}-p 443:443{% endif %} --restart unless-stopped nginx:latest"@, false, true)
    &&& step_is(r.steps@[3], "检查容器运行状态"@, "docker ps --filter name={{ container_name }}"@, false, true)
}

/// `r` is the built-in `postgres` recipe.
pub open spec fn builtin_postgres(r: Recipe) -> bool {
    &&& recipe_head_is(r, "postgres"@, "部署 PostgreSQL 关系型数据库 (支持数据持久化与版本选择)"@, "service"@, Some(seq!["linux"@, "darwin"@, "windows"@]))
    &&& r.inputs@.len() == 5
    &&& input_is(r.inputs@[0], "container_name"@, InputType::Text, "容器名称是什么？"@, Some((Some("my-postgres"@), None, None)), Some(true), None)
    &&& input_is(r.inputs@[1], "port"@, InputType::Number, "映射的主机端口"@, Some((None, Some(5432i64), None)), Some(true), None)
    &&& input_is(r.inputs@[2], "db_password"@, InputType::Password, "超级用户密码"@, None, Some(true), None)
    &&& input_is(r.inputs@[3], "enable_volume"@, InputType::Confirm, "是否使用 Docker 数据卷持久化存储？"@, Some((None, None, Some(true))), None, None)
    &&& input_is(r.inputs@[4], "version_tag"@, InputType::Select, "选择 PostgreSQL 版本"@, Some((Some("16-alpine"@), None, None)), None, Some(seq!["17-alpine"@, "16-alpine"@, "15-alpine"@]))
    &&& r.steps@.len() == 4
    &&& step_is(r.steps@[0], "拉取 PostgreSQL 镜像"@, "docker pull postgres:{{ version_tag }}"@, false, false)
    &&& step_is(r.steps@[1], "清理同名旧容器 (若存在)"@, "docker rm -f {{ container_name }} 2>/dev/null || true"@, true, true)
    &&& step_is(r.steps@[2], "启动 PostgreSQL 容器"@, "docker run -d --name {{ container_name }} -p {{ port }}:5432 -e POSTGRES_PASSWORD={{ db_password }} {% if enable_volume %}-v {{ container_name }}_data:/var/lib/postgresql/data{% endif %} --restart unless-stopped postgres:{{ version_tag }}\n"@, false, true)
    &&& step_is(r.steps@[3], "检查容器运行状态"@, "docker ps --filter name={{ container_name }} --format 'table {{'{{'}}.Names{{'}}'}}\\t{{'{{'}}.Status{{'}}'}}\\t{{'{{'}}.Ports{{'}}'}}'"@, false, true)
}

/// `r` is the built-in `redis` recipe.
pub open spec fn builtin_redis(r: Recipe) -> bool {
    &&& recipe_head_is(r, "redis"@, "部署 Redis 内存数据库"@, "service"@, None)
    &&& r.inputs@.len() == 5
    &&& input_is(r.inputs@[0], "container_name"@, InputType::Text, "容器名称是什么？"@, Some((Some("my-redis"@), None, None)), Some(true), None)
    &&& input_is(r.inputs@[1], "port"@, InputType::Number, "映射的主机端口"@, Some((None, Some(6379i64), None)), Some(true), None)
    &&& input_is(r.inputs@[2], "password"@, InputType::Password, "访问密码 (留空则不设置)"@, None, None, None)
    &&& input_is(r.inputs@[3], "enable_volume"@, InputType::Confirm, "是否使用 Docker 数据卷持久化存储？"@, Some((None, None, Some(true))), None, None)
    &&& input_is(r.inputs@[4], "version_tag"@, InputType::Select, "选择 Redis 版本"@, Some((Some("7-alpine"@), None, None)), None, Some(seq!["7-alpine"@, "6-alpine"@]))
    &&& r.steps@.len() == 4
    &&& step_is(r.steps@[0], "拉取 Redis 镜像"@, "docker pull redis:{{ version_tag }}"@, false, true)
    &&& step_is(r.steps@[1], "清理同名旧容器 (若存在)"@, "docker rm -f {{ container_name }} 2>/dev/null || true"@, true, true)
    &&& step_is(r.steps@[2], "启动 Redis 容器"@, "docker run -d --name {{ container_name }} -p {{ port }}:6379 {% if enable_volume %}-v {{ container_name }}_data:/data{% endif %} --restart unless-stopped redis:{{ version_tag }}{% if password %} redis-server --requirepass {{ password }}{% endif %}"@, false, true)
    &&& step_is(r.steps@[3], "检查容器运行状态"@, "docker ps --filter name={{ container_name }}"@, false, true)
}

/// `r` is the built-in `uptime-kuma` recipe.
pub open spec fn builtin_uptime_kuma(r: Recipe) -> bool {
    &&& recipe_head_is(r, "uptime-kuma"@, "部署 Uptime Kuma 服务可用性监控面板"@, "service"@, None)
    &&& r.inputs@.len() == 2
    &&& input_is(r.inputs@[0], "container_name"@, InputType::Text, "容器名称是什么？"@, Some((Some("uptime-kuma"@), None, None)), Some(true), None)
    &&& input_is(r.inputs@[1], "port"@, InputType::Number, "映射的主机端口"@, Some((None, Some(3001i64), None)), Some(true), None)
    &&& r.steps@.len() == 4
    &&& step_is(r.steps@[0], "拉取 Uptime Kuma 镜像"@, "docker pull louislam/uptime-kuma:1"@, false, true)
    &&& step_is(r.steps@[1], "清理同名旧容器 (若存在)"@, "docker rm -f {{ container_name }} 2>/dev/null || true"@, true, true)
    &&& step_is(r.steps@[2], "启动 Uptime Kuma 容器"@, "docker run -d --name {{ container_name }} -p {{ port }}:3001 -v {{ container_name }}_data:/app/data --restart unless-stopped louislam/uptime-kuma:1"@, false, true)
    &&& step_is(r.steps@[3], "检查容器运行状态"@, "docker ps --filter name={{ container_name }}"@, false, true)
}

/// `r` is the built-in recipe at position `k` of the file-name order.
pub open spec fn builtin_at(k: int, r: Recipe) -> bool {
    if k == 0 {
        builtin_install_docker(r)
    } else if k == 1 {
        builtin_nginx(r)
    } else if k == 2 {
        builtin_postgres(r)
    } else if k == 3 {
        builtin_redis(r)
    } else {
        k == 4 && builtin_uptime_kuma(r)
    }
}

fn text_default(s: &str) -> (d: Option<DefaultValue>)
    ensures
        default_is(d, Some((Some(s@), None, None))),
{
    Some(DefaultValue { text: Some(owned(s)), integer: None, boolean: None })
}

fn number_default(n: i64) -> (d: Option<DefaultValue>)
    ensures
        default_is(d, Some((None, Some(n), None))),
{
    Some(DefaultValue { text: None, integer: Some(n), boolean: None })
}

fn flag_default(b: bool) -> (d: Option<DefaultValue>)
    ensures
        default_is(d, Some((None, None, Some(b)))),
{
    Some(DefaultValue { text: None, integer: None, boolean: Some(b) })
}

fn strings(v: Vec<&str>) -> (r: Vec<String>)
    ensures
        r@.len() == v@.len(),
        forall|k: int| 0 <= k < r@.len() ==> (#[trigger] r@[k])@ == v@[k]@,
{
    let mut r: Vec<String> = Vec::new();
    let mut i: usize = 0;
    while i < v.len()
        invariant
            i <= v.len(),
            r@.len() == i,
            forall|k: int| 0 <= k < i ==> (#[trigger] r@[k])@ == v@[k]@,
        decreases v.len() - i,
    {
        r.push(owned(v[i]));
        i = i + 1;
    }
    r
}

fn input(
    id: &str,
    input_type: InputType,
    prompt: &str,
    default: Option<DefaultValue>,
    required: Option<bool>,
    options: Option<Vec<String>>,
) -> (i: InputSpec)
    ensures
        i.id@ == id@,
        i.input_type == input_type,
        i.prompt@ == prompt@,
        i.default == default,
        i.required == required,
        i.options == options,
        i.help is None,
{
    InputSpec { id: owned(id), input_type, prompt: owned(prompt), default, options, required, help: None }
}

fn step(name: &str, command: &str, allow_failure: bool, show_output: bool) -> (s: StepSpec)
    ensures
        step_is(s, name@, command@, allow_failure, show_output),
{
    StepSpec {
        name: owned(name),
        command: owned(command),
        working_dir: None,
        env: None,
        allow_failure: Some(allow_failure),
        show_output: Some(show_output),
        platforms: None,
    }
}

fn recipe(
    name: &str,
    description: &str,
    category: &str,
    platforms: Option<Vec<String>>,
    inputs: Vec<InputSpec>,
    steps: Vec<StepSpec>,
) -> (r: Recipe)
    ensures
        recipe_head_is(r, name@, description@, category@, texts_of(platforms)),
        r.inputs == inputs,
        r.steps == steps,
{
    Recipe {
        name: owned(name),
        version: owned("1.0.0"),
        description: owned(description),
        category: owned(category),
        author: Some(owned("dpilot")),
        platforms,
        inputs,
        steps,
    }
}

fn install_docker() -> (r: Recipe)
    ensures
        builtin_install_docker(r),
{
    let list1 = strings(vec!["linux"]);
    assert(views(list1@) =~= seq!["linux"@]);
    let inputs = vec![
        input("use_mirror", InputType::Confirm, "是否使用国内镜像源加速安装？", flag_default(false), None, None),
    ];
    let steps = vec![
        step("下载 Docker 官方安装脚本", "curl -fsSL https://get.docker.com -o /tmp/get-docker.sh", false, false),
        step("执行安装脚本", "sudo sh /tmp/get-docker.sh{% if use_mirror %} --mirror Aliyun{% endif %}", false, true),
        step("启用并启动 Docker 服务", "sudo systemctl enable --now docker", true, true),
        step("检查 Docker 版本", "docker --version", false, true),
    ];
    recipe("install-docker", "在 Linux 主机上安装 Docker Engine 并启用服务", "system", Some(list1), inputs, steps)
}

fn nginx() -> (r: Recipe)
    ensures
        builtin_nginx(r),
{
    let inputs = vec![
        input("container_name", InputType::Text, "容器名称是什么？", text_default("my-nginx"), Some(true), None),
        input("http_port", InputType::Number, "映射的 HTTP 主机端口", number_default(80), Some(true), None),
        input("enable_https", InputType::Confirm, "是否同时映射 HTTPS 端口 443？", flag_default(false), None, None),
    ];
    let steps = vec![
        step("拉取 Nginx 镜像", "docker pull nginx:latest", false, true),
        step("清理同名旧容器 (若存在)", "docker rm -f {{ container_name }} 2>/dev/null || true", true, true),
        step("启动 Nginx 容器", "docker run -d --name {{ container_name }} -p {{ http_port }}:80 {% if enable_https %}-p 443:443{% endif %} --restart unless-stopped nginx:latest", false, true),
        step("检查容器运行状态", "docker ps --filter name={{ container_name }}", false, true),
    ];
    recipe("nginx", "部署 Nginx Web 服务器", "service", None, inputs, steps)
}

fn postgres() -> (r: Recipe)
    ensures
        builtin_postgres(r),
{
    let list2 = strings(vec!["17-alpine", "16-alpine", "15-alpine"]);
    assert(views(list2@) =~= seq!["17-alpine"@, "16-alpine"@, "15-alpine"@]);
    let list3 = strings(vec!["linux", "darwin", "windows"]);
    assert(views(list3@) =~= seq!["linux"@, "darwin"@, "windows"@]);
    let inputs = vec![
        input("container_name", InputType::Text, "容器名称是什么？", text_default("my-postgres"), Some(true), None),
        input("port", InputType::Number, "映射的主机端口", number_default(5432), Some(true), None),
        input("db_password", InputType::Password, "超级用户密码", None, Some(true), None),
        input("enable_volume", InputType::Confirm, "是否使用 Docker 数据卷持久化存储？", flag_default(true), None, None),
        input("version_tag", InputType::Select, "选择 PostgreSQL 版本", text_default("16-alpine"), None, Some(list2)),
    ];
    let steps = vec![
        step("拉取 PostgreSQL 镜像", "docker pull postgres:{{ version_tag }}", false, false),
        step("清理同名旧容器 (若存在)", "docker rm -f {{ container_name }} 2>/dev/null || true", true, true),
        step("启动 PostgreSQL 容器", "docker run -d --name {{ container_name }} -p {{ port }}:5432 -e POSTGRES_PASSWORD={{ db_password }} {% if enable_volume %}-v {{ container_name }}_data:/var/lib/postgresql/data{% endif %} --restart unless-stopped postgres:{{ version_tag }}\n", false, true),
        step("检查容器运行状态", "docker ps --filter name={{ container_name }} --format 'table {{'{{'}}.Names{{'}}'}}\\t{{'{{'}}.Status{{'}}'}}\\t{{'{{'}}.Ports{{'}}'}}'", false, true),
    ];
    recipe("postgres", "部署 PostgreSQL 关系型数据库 (支持数据持久化与版本选择)", "service", Some(list3), inputs, steps)
}

fn redis() -> (r: Recipe)
    ensures
        builtin_redis(r),
{
    let list4 = strings(vec!["7-alpine", "6-alpine"]);
    assert(views(list4@) =~= seq!["7-alpine"@, "6-alpine"@]);
    let inputs = vec![
        input("container_name", InputType::Text, "容器名称是什么？", text_default("my-redis"), Some(true), None),
        input("port", InputType::Number, "映射的主机端口", number_default(6379), Some(true), None),
        input("password", InputType::Password, "访问密码 (留空则不设置)", None, None, None),
        input("enable_volume", InputType::Confirm, "是否使用 Docker 数据卷持久化存储？", flag_default(true), None, None),
        input("version_tag", InputType::Select, "选择 Redis 版本", text_default("7-alpine"), None, Some(list4)),
    ];
    let steps = vec![
        step("拉取 Redis 镜像", "docker pull redis:{{ version_tag }}", false, true),
        step("清理同名旧容器 (若存在)", "docker rm -f {{ container_name }} 2>/dev/null || true", true, true),
        step("启动 Redis 容器", "docker run -d --name {{ container_name }} -p {{ port }}:6379 {% if enable_volume %}-v {{ container_name }}_data:/data{% endif %} --restart unless-stopped redis:{{ version_tag }}{% if password %} redis-server --requirepass {{ password }}{% endif %}", false, true),
        step("检查容器运行状态", "docker ps --filter name={{ container_name }}", false, true),
    ];
    recipe("redis", "部署 Redis 内存数据库", "service", None, inputs, steps)
}

fn uptime_kuma() -> (r: Recipe)
    ensures
        builtin_uptime_kuma(r),
{
    let inputs = vec![
        input("container_name", InputType::Text, "容器名称是什么？", text_default("uptime-kuma"), Some(true), None),
        input("port", InputType::Number, "映射的主机端口", number_default(3001), Some(true), None),
    ];
    let steps = vec![
        step("拉取 Uptime Kuma 镜像", "docker pull louislam/uptime-kuma:1", false, true),
        step("清理同名旧容器 (若存在)", "docker rm -f {{ container_name }} 2>/dev/null || true", true, true),
        step("启动 Uptime Kuma 容器", "docker run -d --name {{ container_name }} -p {{ port }}:3001 -v {{ container_name }}_data:/app/data --restart unless-stopped louislam/uptime-kuma:1", false, true),
        step("检查容器运行状态", "docker ps --filter name={{ container_name }}", false, true),
    ];
    recipe("uptime-kuma", "部署 Uptime Kuma 服务可用性监控面板", "service", None, inputs, steps)
}

impl RecipeRegistry {
    /// The built-in recipes, in file-name order.
    pub fn embedded_recipes() -> (r: Vec<Recipe>)
        ensures
            r@.len() == 5,
            builtin_install_docker(r@[0]),
            builtin_nginx(r@[1]),
            builtin_postgres(r@[2]),
            builtin_redis(r@[3]),
            builtin_uptime_kuma(r@[4]),
            forall|i: int| 0 <= i < r@.len() ==> (#[trigger] r@[i]).name@ == embedded_names()[i],
            forall|i: int| 0 <= i < r@.len() ==> (#[trigger] r@[i]).category@ == embedded_categories()[i],
            forall|i: int| 0 <= i < r@.len() ==> builtin_at(i, #[trigger] r@[i]),
    {
        let r = vec![install_docker(), nginx(), postgres(), redis(), uptime_kuma()];
        assert(r@[0].name@ == embedded_names()[0]);
        assert(r@[1].name@ == embedded_names()[1]);
        assert(r@[2].name@ == embedded_names()[2]);
        assert(r@[3].name@ == embedded_names()[3]);
        assert(r@[4].name@ == embedded_names()[4]);
        r
    }

    /// The built-in recipe stored as `file_name` (`<name>.yaml`), if there is one.
    pub fn embedded_recipe(file_name: &str) -> (r: Option<Recipe>)
        ensures
            r is Some <==> exists|i: int|
                0 <= i < embedded_names().len() && #[trigger] embedded_names()[i] + ".yaml"@ == file_name@,
            r matches Some(rec) ==> rec.name@ + ".yaml"@ == file_name@ && exists|i: int|
                0 <= i < embedded_names().len() && rec.name@ == embedded_names()[i]
                    && #[trigger] rec.category@ == embedded_categories()[i] && rec.version@ == "1.0.0"@
                    && builtin_at(i, rec),
    {
        let mut all = Self::embedded_recipes();
        let ghost names = embedded_names();
        let wanted = owned(file_name);
        let mut i: usize = 0;
        while i < all.len()
            invariant
                all@.len() == names.len(),
                names == embedded_names(),
                forall|k: int| 0 <= k < all@.len() ==> (#[trigger] all@[k]).name@ == names[k],
                forall|k: int| 0 <= k < all@.len() ==> (#[trigger] all@[k]).category@ == embedded_categories()[k],
                forall|k: int| 0 <= k < all@.len() ==> (#[trigger] all@[k]).version@ == "1.0.0"@,
                forall|k: int| 0 <= k < all@.len() ==> builtin_at(k, #[trigger] all@[k]),
                wanted@ == file_name@,
                i <= all.len(),
                forall|k: int| 0 <= k < i ==> #[trigger] names[k] + ".yaml"@ != file_name@,
            decreases all.len() - i,
        {
            let file = concat(all[i].name.as_str(), ".yaml");
            if file.eq(&wanted) {
                let ghost k = i as int;
                let rec = all.remove(i);
                assert(rec.name@ == embedded_names()[k] && rec.category@ == embedded_categories()[k]);
                assert(builtin_at(k, rec));
                return Some(rec);
            }
            i = i + 1;
        }
        None
    }
}

} // verus!
